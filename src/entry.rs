//! The indexed item: one launchable program and where it was found.
use vstd::prelude::*;

verus! {

/// Where a program was found; the first variant ranks higher.
#[derive(Clone, Copy, Debug, PartialEq, Eq, Structural)]
pub enum ProgramSource {
    StartMenu,
    ProgramFiles,
}

/// Rank of a source in the published order: lower comes first.
pub open spec fn priority(s: ProgramSource) -> int {
    match s {
        ProgramSource::StartMenu => 0,
        ProgramSource::ProgramFiles => 1,
    }
}

/// One launchable program.
///
/// `name` is the lowercased file stem, `display_name` the name shown to the
/// user, `path` the file that launches it, `icon_path` a cached icon image.
#[derive(Clone, Debug)]
pub struct ProgramEntry {
    pub path: String,
    pub name: String,
    pub display_name: String,
    pub source: ProgramSource,
    pub icon_path: Option<String>,
}

/// The contents of a `ProgramEntry`, as character sequences.
pub struct EntryView {
    pub path: Seq<char>,
    pub name: Seq<char>,
    pub display_name: Seq<char>,
    pub source: ProgramSource,
    pub icon_path: Option<Seq<char>>,
}

/// The view of an optional string.
pub open spec fn opt_view(o: Option<String>) -> Option<Seq<char>> {
    match o {
        Some(s) => Some(s@),
        None => None,
    }
}

impl View for ProgramEntry {
    type V = EntryView;

    open spec fn view(&self) -> EntryView {
        EntryView {
            path: self.path@,
            name: self.name@,
            display_name: self.display_name@,
            source: self.source,
            icon_path: opt_view(self.icon_path),
        }
    }
}

/// The views of a sequence of entries.
pub open spec fn entry_views(es: Seq<ProgramEntry>) -> Seq<EntryView> {
    es.map_values(|e: ProgramEntry| e@)
}

impl ProgramEntry {
    /// A copy with the same contents.
    pub fn duplicate(&self) -> (r: ProgramEntry)
        ensures
            r@ == self@,
    {
        let icon_path = match &self.icon_path {
            Some(p) => Some(p.clone()),
            None => None,
        };
        ProgramEntry {
            path: self.path.clone(),
            name: self.name.clone(),
            display_name: self.display_name.clone(),
            source: self.source,
            icon_path,
        }
    }
}

} // verus!
