//! Turning the files found under the scanned roots into index entries.
use vstd::prelude::*;
use vstd::string::StrSliceExecFns;
use crate::entry::{entry_views, opt_view, EntryView, ProgramEntry, ProgramSource};
use crate::order::{is_sorting, sort_entries, sorted_from};
use crate::text::{
    alnum_of, contains, is_alphanumeric, lower_of, lowercase, occurs_in, push_char, same_text, upper_of, uppercase_char,
};

verus! {

/// Longest run of characters of a display name kept in an icon file name.
pub const ICON_NAME_LIMIT: usize = 50;

/// What a shortcut file names, as far as it could be read.
#[derive(Clone, Debug)]
pub struct ShortcutInfo {
    /// The name stored in the shortcut.
    pub name: Option<String>,
    /// The local path of the file that the shortcut points to.
    pub local_base_path: Option<String>,
}

/// A regular file met while walking a root.
#[derive(Clone, Debug)]
pub struct FoundFile {
    pub path: String,
    /// The file name without its extension, where it is valid text.
    pub stem: Option<String>,
    /// The extension as found, not lowercased.
    pub extension: Option<String>,
    /// The parsed shortcut, where the file is one and it could be read;
    /// `None` where parsing failed.
    pub shortcut: Option<ShortcutInfo>,
}

/// A file that passed the filters, with its resolved names.
#[derive(Clone, Debug)]
pub struct Admission {
    pub path: String,
    /// Lowercased file stem.
    pub name: String,
    pub display_name: String,
    /// The file to take the icon from.
    pub target: String,
    /// Name of the icon image in the icon cache.
    pub icon_file: String,
    pub source: ProgramSource,
}

/// The extension that files of a source must have.
pub open spec fn wanted_extension(source: ProgramSource) -> Seq<char> {
    match source {
        ProgramSource::StartMenu => "lnk"@,
        ProgramSource::ProgramFiles => "exe"@,
    }
}

/// Whether a lowercased file stem names an uninstaller, updater or setup
/// program.
pub open spec fn is_maintenance(stem: Seq<char>) -> bool {
    occurs_in("uninstall"@, stem) || occurs_in("uninst"@, stem) || occurs_in("update"@, stem)
        || occurs_in("updater"@, stem) || occurs_in("setup"@, stem)
}

/// The stem, or a fixed placeholder where there is no usable stem.
pub open spec fn stem_or_unknown(stem: Option<Seq<char>>) -> Seq<char> {
    match stem {
        Some(s) => if s.len() > 0 { s } else { "Unknown"@ },
        None => "Unknown"@,
    }
}

/// Whether the file is a shortcut that was read.
pub open spec fn read_shortcut(f: FoundFile) -> bool {
    &&& f.extension is Some
    &&& lower_of(f.extension->0@) == "lnk"@
    &&& f.shortcut is Some
}

/// The name shown for a file: a shortcut's own non-empty name, else the
/// file's stem.
pub open spec fn display_of(f: FoundFile) -> Seq<char> {
    if read_shortcut(f) && f.shortcut->0.name is Some && f.shortcut->0.name->0@.len() > 0 {
        f.shortcut->0.name->0@
    } else {
        stem_or_unknown(opt_view(f.stem))
    }
}

/// The file to take an icon from: a shortcut's local target, else the file.
pub open spec fn target_of(f: FoundFile) -> Seq<char> {
    if read_shortcut(f) && f.shortcut->0.local_base_path is Some {
        f.shortcut->0.local_base_path->0@
    } else {
        f.path@
    }
}

/// The lowercased stem, empty where there is none.
pub open spec fn short_name_of(f: FoundFile) -> Seq<char> {
    match f.stem {
        Some(s) => lower_of(s@),
        None => Seq::empty(),
    }
}

/// Whether a file of `source` passes the extension and name filters.
pub open spec fn passes_filters(f: FoundFile, source: ProgramSource) -> bool {
    &&& f.extension is Some
    &&& lower_of(f.extension->0@) == wanted_extension(source)
    &&& !is_maintenance(short_name_of(f))
}

/// Characters that an icon file name keeps.
pub open spec fn icon_char(c: char) -> bool {
    alnum_of(c) || c == ' ' || c == '-' || c == '_'
}

/// The characters of `s` that an icon file name keeps, in order.
pub open spec fn icon_chars(s: Seq<char>) -> Seq<char>
    decreases s.len(),
{
    if s.len() == 0 {
        s
    } else if icon_char(s.last()) {
        icon_chars(s.drop_last()).push(s.last())
    } else {
        icon_chars(s.drop_last())
    }
}

pub open spec fn underscore_spaces(s: Seq<char>) -> Seq<char> {
    s.map_values(|c: char| if c == ' ' { '_' } else { c })
}

/// The icon cache's file name for a display name: its kept characters, at
/// most `ICON_NAME_LIMIT` of them, spaces as underscores, and ".png".
pub open spec fn icon_file_of(display: Seq<char>) -> Seq<char> {
    let kept = icon_chars(display);
    let cut = if kept.len() <= ICON_NAME_LIMIT { kept } else { kept.subrange(0, ICON_NAME_LIMIT as int) };
    underscore_spaces(cut) + ".png"@
}

/// The glyph drawn where an entry has no icon: its first alphanumeric
/// character, uppercased, or "?".
pub open spec fn is_placeholder(name: Seq<char>, r: Seq<char>) -> bool {
    ||| exists|k: int|
        0 <= k < name.len() && alnum_of(#[trigger] name[k]) && (forall|j: int| 0 <= j < k ==> !alnum_of(name[j]))
            && r == upper_of(name[k])
    ||| (forall|k: int| 0 <= k < name.len() ==> !alnum_of(#[trigger] name[k])) && r == "?"@
}

/// The maximum traversal depth below a root of this source.
pub fn max_depth(source: ProgramSource) -> (r: usize)
    ensures
        r == (if source == ProgramSource::StartMenu { 5usize } else { 2usize }),
{
    match source {
        ProgramSource::StartMenu => 5,
        ProgramSource::ProgramFiles => 2,
    }
}

/// Whether a lowercased stem names an uninstaller, updater or setup program.
pub fn is_maintenance_name(stem: &str) -> (r: bool)
    ensures
        r == is_maintenance(stem@),
{
    contains(stem, "uninstall") || contains(stem, "uninst") || contains(stem, "update")
        || contains(stem, "updater") || contains(stem, "setup")
}

/// The name shown for a file and the file to take its icon from.
pub fn get_display_name_and_target(file: &FoundFile) -> (r: (String, String))
    ensures
        r.0@ == display_of(*file),
        r.1@ == target_of(*file),
{
    let is_link = match &file.extension {
        Some(e) => {
            let l = lowercase(e.as_str());
            same_text(l.as_str(), "lnk")
        },
        None => false,
    };
    let fallback = match &file.stem {
        Some(s) => if s.unicode_len() > 0 { s.clone() } else { String::from_str("Unknown") },
        None => String::from_str("Unknown"),
    };
    if is_link {
        if let Some(li) = &file.shortcut {
            let display = match &li.name {
                Some(n) => if n.unicode_len() > 0 { n.clone() } else { fallback },
                None => fallback,
            };
            let target = match &li.local_base_path {
                Some(bp) => bp.clone(),
                None => file.path.clone(),
            };
            return (display, target);
        }
    }
    (fallback, file.path.clone())
}

/// The icon cache's file name for a display name.
pub fn icon_file_name(display_name: &str) -> (r: String)
    ensures
        r@ == icon_file_of(display_name@),
{
    let n = display_name.unicode_len();
    let mut kept = String::new();
    let mut i: usize = 0;
    while i < n
        invariant
            n == display_name@.len(),
            i <= n,
            kept@ == icon_chars(display_name@.subrange(0, i as int)),
        decreases n - i,
    {
        let c = display_name.get_char(i);
        let ghost pre = display_name@.subrange(0, i as int);
        assert(display_name@.subrange(0, i + 1).drop_last() == pre);
        if is_alphanumeric(c) || c == ' ' || c == '-' || c == '_' {
            push_char(&mut kept, c);
        }
        i = i + 1;
    }
    assert(display_name@.subrange(0, n as int) == display_name@);
    let ghost all = kept@;
    let m = kept.unicode_len();
    let limit = if m <= ICON_NAME_LIMIT { m } else { ICON_NAME_LIMIT };
    let ghost cut = if all.len() <= ICON_NAME_LIMIT { all } else { all.subrange(0, ICON_NAME_LIMIT as int) };
    let mut r = String::new();
    let mut k: usize = 0;
    while k < limit
        invariant
            kept@ == all,
            limit == cut.len(),
            limit <= all.len(),
            cut == all.subrange(0, limit as int),
            k <= limit,
            r@ == underscore_spaces(cut.subrange(0, k as int)),
        decreases limit - k,
    {
        let c = kept.as_str().get_char(k);
        push_char(&mut r, if c == ' ' { '_' } else { c });
        assert(underscore_spaces(cut.subrange(0, k + 1)) =~= underscore_spaces(cut.subrange(0, k as int)).push(
            if c == ' ' { '_' } else { c },
        ));
        k = k + 1;
    }
    assert(cut.subrange(0, limit as int) =~= cut);
    r.append(".png");
    r
}

/// The glyph drawn where an entry has no icon.
pub fn placeholder_letter(name: &str) -> (r: String)
    ensures
        is_placeholder(name@, r@),
{
    let n = name.unicode_len();
    let mut i: usize = 0;
    while i < n
        invariant
            n == name@.len(),
            i <= n,
            forall|j: int| 0 <= j < i ==> !alnum_of(#[trigger] name@[j]),
        decreases n - i,
    {
        let c = name.get_char(i);
        if is_alphanumeric(c) {
            return uppercase_char(c);
        }
        i = i + 1;
    }
    String::from_str("?")
}

/// The admission of a file of `source`, before deduplication.
pub open spec fn admission_of(f: FoundFile, source: ProgramSource) -> Option<AdmissionView> {
    if passes_filters(f, source) {
        Some(
            AdmissionView {
                path: f.path@,
                name: short_name_of(f),
                display_name: display_of(f),
                target: target_of(f),
                icon_file: icon_file_of(display_of(f)),
                source,
            },
        )
    } else {
        None
    }
}

pub struct AdmissionView {
    pub path: Seq<char>,
    pub name: Seq<char>,
    pub display_name: Seq<char>,
    pub target: Seq<char>,
    pub icon_file: Seq<char>,
    pub source: ProgramSource,
}

impl View for Admission {
    type V = AdmissionView;

    open spec fn view(&self) -> AdmissionView {
        AdmissionView {
            path: self.path@,
            name: self.name@,
            display_name: self.display_name@,
            target: self.target@,
            icon_file: self.icon_file@,
            source: self.source,
        }
    }
}

/// The deduplication key of a display name.
pub open spec fn key_of(display: Seq<char>) -> Seq<char> {
    lower_of(display)
}

/// Whether some entry of `es` has the key `k`.
pub open spec fn has_key(es: Seq<EntryView>, k: Seq<char>) -> bool {
    exists|i: int| 0 <= i < es.len() && key_of(#[trigger] es[i].display_name) == k
}

/// No two entries of `es` share a key.
pub open spec fn keys_distinct(es: Seq<EntryView>) -> bool {
    forall|i: int, j: int|
        0 <= i < j < es.len() ==> key_of(#[trigger] es[i].display_name) != key_of(
            #[trigger] es[j].display_name,
        )
}

/// Collects the entries of one scan, first key first.
pub struct Scanner {
    programs: Vec<ProgramEntry>,
    seen: Vec<String>,
}

impl Scanner {
    /// The entries collected so far, in the order they were added.
    pub closed spec fn entries(&self) -> Seq<EntryView> {
        entry_views(self.programs@)
    }

    pub closed spec fn wf(&self) -> bool {
        &&& self.seen@.len() == self.programs@.len()
        &&& forall|i: int| 0 <= i < self.seen@.len() ==> #[trigger] self.seen@[i]@ == key_of(self.programs@[i].display_name@)
        &&& keys_distinct(self.entries())
    }

    pub fn new() -> (r: Scanner)
        ensures
            r.wf(),
            r.entries() == Seq::<EntryView>::empty(),
    {
        let r = Scanner { programs: Vec::new(), seen: Vec::new() };
        assert(r.entries() =~= Seq::<EntryView>::empty());
        r
    }

    pub fn len(&self) -> (r: usize)
        requires
            self.wf(),
        ensures
            r == self.entries().len(),
    {
        self.programs.len()
    }

    fn find_key(&self, key: &String) -> (r: bool)
        requires
            self.wf(),
        ensures
            r == has_key(self.entries(), key@),
    {
        let mut i: usize = 0;
        while i < self.seen.len()
            invariant
                self.wf(),
                i <= self.seen@.len(),
                forall|j: int| 0 <= j < i ==> key_of(#[trigger] self.entries()[j].display_name) != key@,
            decreases self.seen@.len() - i,
        {
            if same_text(self.seen[i].as_str(), key.as_str()) {
                assert(key_of(self.entries()[i as int].display_name) == key@);
                return true;
            }
            i = i + 1;
        }
        false
    }

    /// Decides whether a file of `source` becomes an entry: its extension
    /// must be the one of its source, its lowercased stem must not name a
    /// maintenance program, and no entry collected so far may have its key.
    pub fn consider(&self, file: &FoundFile, source: ProgramSource) -> (r: Option<Admission>)
        requires
            self.wf(),
        ensures
            match admission_of(*file, source) {
                Some(a) => if has_key(self.entries(), key_of(a.display_name)) {
                    r is None
                } else {
                    r is Some && r->0@ == a
                },
                None => r is None,
            },
    {
        let wanted = match source {
            ProgramSource::StartMenu => "lnk",
            ProgramSource::ProgramFiles => "exe",
        };
        let ext_ok = match &file.extension {
            Some(e) => {
                let l = lowercase(e.as_str());
                same_text(l.as_str(), wanted)
            },
            None => false,
        };
        if !ext_ok {
            return None;
        }
        let name = match &file.stem {
            Some(s) => lowercase(s.as_str()),
            None => String::new(),
        };
        if is_maintenance_name(name.as_str()) {
            return None;
        }
        let (display_name, target) = get_display_name_and_target(file);
        let key = lowercase(display_name.as_str());
        if self.find_key(&key) {
            return None;
        }
        let icon_file = icon_file_name(display_name.as_str());
        Some(Admission { path: file.path.clone(), name, display_name, target, icon_file, source })
    }

    /// Adds an admitted file with the icon found for it, unless an entry
    /// with its key was added meanwhile. Returns whether it was added.
    pub fn add(&mut self, a: Admission, icon_path: Option<String>) -> (r: bool)
        requires
            old(self).wf(),
        ensures
            final(self).wf(),
            r == !has_key(old(self).entries(), key_of(a.display_name@)),
            r ==> final(self).entries() == old(self).entries().push(
                EntryView {
                    path: a.path@,
                    name: a.name@,
                    display_name: a.display_name@,
                    source: a.source,
                    icon_path: opt_view(icon_path),
                },
            ),
            !r ==> final(self).entries() == old(self).entries(),
    {
        let key = lowercase(a.display_name.as_str());
        if self.find_key(&key) {
            return false;
        }
        let ghost before = self.entries();
        let e = ProgramEntry {
            path: a.path,
            name: a.name,
            display_name: a.display_name,
            source: a.source,
            icon_path,
        };
        self.programs.push(e);
        self.seen.push(key);
        assert(self.entries() =~= before.push(e@));
        assert forall|i: int, j: int|
            0 <= i < j < self.entries().len() implies key_of(#[trigger] self.entries()[i].display_name)
            != key_of(#[trigger] self.entries()[j].display_name) by {
            if j == before.len() {
                assert(self.entries()[i] == before[i]);
            } else {
                assert(self.entries()[i] == before[i]);
                assert(self.entries()[j] == before[j]);
            }
        }
        true
    }

    /// The collected entries in the published order: by source priority,
    /// then by display name. No two of them share a key.
    pub fn finish(self) -> (r: Vec<ProgramEntry>)
        requires
            self.wf(),
        ensures
            sorted_from(self.entries(), entry_views(r@)),
            keys_distinct(entry_views(r@)),
    {
        let ghost es = self.entries();
        let r = sort_entries(self.programs);
        proof {
            let rv = entry_views(r@);
            let p = choose|p: Seq<usize>|
                is_sorting(es, p) && rv.len() == es.len() && forall|k: int|
                    0 <= k < rv.len() ==> rv[k] == #[trigger] es[p[k] as int];
            assert forall|i: int, j: int| 0 <= i < j < rv.len() implies key_of(
                #[trigger] rv[i].display_name,
            ) != key_of(#[trigger] rv[j].display_name) by {
                assert(rv[i] == es[p[i] as int]);
                assert(rv[j] == es[p[j] as int]);
                assert(p[i] != p[j]);
                assert(p[i] < es.len() && p[j] < es.len());
                if p[i] < p[j] {
                    assert(key_of(es[p[i] as int].display_name) != key_of(es[p[j] as int].display_name));
                } else {
                    assert(key_of(es[p[j] as int].display_name) != key_of(es[p[i] as int].display_name));
                }
            }
        }
        r
    }
}

} // verus!
