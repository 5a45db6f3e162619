//! The index snapshot saved on disk, as plain records.
//!
//! A record holds, in order: the path, the short name, the display name, the
//! source's name and the optional icon path. The program around the library
//! writes a list of records as JSON and reads it back.
use vstd::prelude::*;
use crate::entry::{entry_views, opt_view, EntryView, ProgramEntry, ProgramSource};
use crate::text::same_text;

verus! {

pub struct RecordView {
    pub path: Seq<char>,
    pub name: Seq<char>,
    pub display_name: Seq<char>,
    pub source: Seq<char>,
    pub icon_path: Option<Seq<char>>,
}

pub open spec fn record_view(r: (String, String, String, String, Option<String>)) -> RecordView {
    RecordView { path: r.0@, name: r.1@, display_name: r.2@, source: r.3@, icon_path: opt_view(r.4) }
}

pub open spec fn record_views(rs: Seq<(String, String, String, String, Option<String>)>) -> Seq<RecordView> {
    rs.map_values(|r: (String, String, String, String, Option<String>)| record_view(r))
}

/// The name under which a source is stored.
pub open spec fn source_name(s: ProgramSource) -> Seq<char> {
    match s {
        ProgramSource::StartMenu => "StartMenu"@,
        ProgramSource::ProgramFiles => "ProgramFiles"@,
    }
}

/// The source stored under a name, if any.
pub open spec fn source_named(n: Seq<char>) -> Option<ProgramSource> {
    if n == "StartMenu"@ {
        Some(ProgramSource::StartMenu)
    } else if n == "ProgramFiles"@ {
        Some(ProgramSource::ProgramFiles)
    } else {
        None
    }
}

pub open spec fn record_of(e: EntryView) -> RecordView {
    RecordView {
        path: e.path,
        name: e.name,
        display_name: e.display_name,
        source: source_name(e.source),
        icon_path: e.icon_path,
    }
}

/// The entry a record stands for, where its source name is known.
pub open spec fn entry_of(r: RecordView) -> Option<EntryView> {
    match source_named(r.source) {
        Some(s) => Some(
            EntryView { path: r.path, name: r.name, display_name: r.display_name, source: s, icon_path: r.icon_path },
        ),
        None => None,
    }
}

/// Whether every record of `rs` names a known source.
pub open spec fn all_known(rs: Seq<RecordView>) -> bool {
    forall|i: int| 0 <= i < rs.len() ==> (#[trigger] entry_of(rs[i])) is Some
}

/// Writing entries as records and reading them back gives the same entries,
/// in the same order, icon paths present or absent alike.
pub proof fn lemma_round_trip(es: Seq<EntryView>)
    ensures
        all_known(es.map_values(|e: EntryView| record_of(e))),
        es.map_values(|e: EntryView| record_of(e)).map_values(|r: RecordView| entry_of(r)->0) == es,
{
    reveal_strlit("StartMenu");
    reveal_strlit("ProgramFiles");
    let rs = es.map_values(|e: EntryView| record_of(e));
    assert forall|i: int| 0 <= i < rs.len() implies (#[trigger] entry_of(rs[i])) is Some && entry_of(rs[i])->0
        == es[i] by {
        assert(rs[i] == record_of(es[i]));
        assert("StartMenu"@.len() != "ProgramFiles"@.len());
    }
    assert(rs.map_values(|r: RecordView| entry_of(r)->0) =~= es);
}

/// The record of one entry.
pub fn to_record(e: &ProgramEntry) -> (r: (String, String, String, String, Option<String>))
    ensures
        record_view(r) == record_of(e@),
{
    let source = match e.source {
        ProgramSource::StartMenu => String::from_str("StartMenu"),
        ProgramSource::ProgramFiles => String::from_str("ProgramFiles"),
    };
    let icon_path = match &e.icon_path {
        Some(p) => Some(p.clone()),
        None => None,
    };
    (e.path.clone(), e.name.clone(), e.display_name.clone(), source, icon_path)
}

/// The records of a list of entries, in order.
pub fn to_records(entries: &Vec<ProgramEntry>) -> (r: Vec<(String, String, String, String, Option<String>)>)
    ensures
        record_views(r@) == entry_views(entries@).map_values(|e: EntryView| record_of(e)),
{
    let mut r: Vec<(String, String, String, String, Option<String>)> = Vec::new();
    let mut i: usize = 0;
    while i < entries.len()
        invariant
            i <= entries@.len(),
            r@.len() == i,
            forall|j: int| 0 <= j < i ==> #[trigger] record_view(r@[j]) == record_of(entries@[j]@),
        decreases entries@.len() - i,
    {
        r.push(to_record(&entries[i]));
        i = i + 1;
    }
    assert(record_views(r@) =~= entry_views(entries@).map_values(|e: EntryView| record_of(e)));
    r
}

/// The entry of one record, or `None` where its source name is unknown.
pub fn from_record(r: &(String, String, String, String, Option<String>)) -> (e: Option<ProgramEntry>)
    ensures
        match entry_of(record_view(*r)) {
            Some(v) => e is Some && e->0@ == v,
            None => e is None,
        },
{
    let source = if same_text(r.3.as_str(), "StartMenu") {
        ProgramSource::StartMenu
    } else if same_text(r.3.as_str(), "ProgramFiles") {
        ProgramSource::ProgramFiles
    } else {
        return None;
    };
    let icon_path = match &r.4 {
        Some(p) => Some(p.clone()),
        None => None,
    };
    Some(ProgramEntry { path: r.0.clone(), name: r.1.clone(), display_name: r.2.clone(), source, icon_path })
}

/// The entries of a list of records, in order; `None` where a record names
/// an unknown source.
pub fn from_records(records: &Vec<(String, String, String, String, Option<String>)>) -> (r: Option<
    Vec<ProgramEntry>,
>)
    ensures
        r is Some <==> all_known(record_views(records@)),
        r is Some ==> entry_views(r->0@) == record_views(records@).map_values(|v: RecordView| entry_of(v)->0),
{
    let ghost rv = record_views(records@);
    let mut out: Vec<ProgramEntry> = Vec::new();
    let mut i: usize = 0;
    while i < records.len()
        invariant
            rv == record_views(records@),
            i <= records@.len(),
            out@.len() == i,
            forall|j: int| 0 <= j < i ==> (#[trigger] entry_of(rv[j])) is Some,
            forall|j: int| 0 <= j < i ==> #[trigger] out@[j]@ == entry_of(rv[j])->0,
        decreases records@.len() - i,
    {
        match from_record(&records[i]) {
            Some(e) => out.push(e),
            None => {
                assert(entry_of(rv[i as int]) is None);
                return None;
            },
        }
        i = i + 1;
    }
    assert(entry_views(out@) =~= rv.map_values(|v: RecordView| entry_of(v)->0));
    Some(out)
}

} // verus!
