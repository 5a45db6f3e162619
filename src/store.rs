//! The published index: one entry list, replaced whole, with its status.
use vstd::prelude::*;
use crate::entry::{entry_views, EntryView, ProgramEntry};

verus! {

/// The contents of an `ProgramIndex`.
pub struct IndexView {
    pub entries: Seq<EntryView>,
    pub indexing: bool,
    pub count: nat,
}

/// The state behind the index: the published entries, whether a scan is
/// running, and how many entries were published.
///
/// The program around the library keeps one `ProgramIndex` behind a single
/// lock and runs the scan itself: `start_indexing` says whether to launch
/// one, and `publish` replaces the list, the count and the flag in one step,
/// so a reader never sees a list being built.
pub struct ProgramIndex {
    entries: Vec<ProgramEntry>,
    indexing: bool,
    count: usize,
}

impl View for ProgramIndex {
    type V = IndexView;

    closed spec fn view(&self) -> IndexView {
        IndexView { entries: entry_views(self.entries@), indexing: self.indexing, count: self.count as nat }
    }
}

/// The state after a request to start a scan, and whether a scan is to be
/// launched: only where none is running.
pub open spec fn start_indexing_spec(s: IndexView) -> (IndexView, bool) {
    if s.indexing {
        (s, false)
    } else {
        (IndexView { indexing: true, ..s }, true)
    }
}

/// The state after a finished scan publishes `es`.
pub open spec fn publish_spec(s: IndexView, es: Seq<EntryView>) -> IndexView {
    IndexView { entries: es, indexing: false, count: es.len() }
}

/// How many of `n` successive requests to start a scan launch one, from `s`.
pub open spec fn launches(s: IndexView, n: nat) -> nat
    decreases n,
{
    if n == 0 {
        0
    } else {
        let (t, go) = start_indexing_spec(s);
        (if go { 1nat } else { 0nat }) + launches(t, (n - 1) as nat)
    }
}

/// Any number of requests to start a scan, made while none is published in
/// between, launch at most one scan: exactly one where none was running.
pub proof fn lemma_one_scan_at_a_time(s: IndexView, n: nat)
    requires
        n >= 1,
    ensures
        launches(s, n) == (if s.indexing { 0nat } else { 1nat }),
    decreases n,
{
    let t = start_indexing_spec(s).0;
    assert(launches(t, 0) == 0);
    if n > 1 {
        lemma_one_scan_at_a_time(t, (n - 1) as nat);
    }
}

/// A reader sees whole lists only: while a scan runs the earlier list stays
/// published as it was, and when it ends the new list is published entire,
/// with its count.
pub proof fn lemma_publish_whole(s: IndexView, es: Seq<EntryView>)
    ensures
        start_indexing_spec(s).0.entries == s.entries,
        start_indexing_spec(s).0.count == s.count,
        publish_spec(start_indexing_spec(s).0, es).entries == es,
        publish_spec(start_indexing_spec(s).0, es).count == es.len(),
        !publish_spec(start_indexing_spec(s).0, es).indexing,
{
}

impl ProgramIndex {
    /// The count matches the published list.
    pub closed spec fn wf(&self) -> bool {
        self.count as nat == self.entries@.len()
    }

    pub fn new() -> (r: ProgramIndex)
        ensures
            r.wf(),
            r@ == (IndexView { entries: Seq::empty(), indexing: false, count: 0 }),
    {
        let r = ProgramIndex { entries: Vec::new(), indexing: false, count: 0 };
        assert(r@.entries =~= Seq::<EntryView>::empty());
        r
    }

    pub fn is_indexing(&self) -> (r: bool)
        ensures
            r == self@.indexing,
    {
        self.indexing
    }

    pub fn indexed_count(&self) -> (r: usize)
        ensures
            r == self@.count,
    {
        self.count
    }

    /// A copy of the published list.
    pub fn get_entries(&self) -> (r: Vec<ProgramEntry>)
        ensures
            entry_views(r@) == self@.entries,
    {
        let mut r: Vec<ProgramEntry> = Vec::new();
        let mut i: usize = 0;
        while i < self.entries.len()
            invariant
                i <= self.entries@.len(),
                r@.len() == i,
                forall|j: int| 0 <= j < i ==> #[trigger] r@[j]@ == self.entries@[j]@,
            decreases self.entries@.len() - i,
        {
            let e = self.entries[i].duplicate();
            r.push(e);
            i = i + 1;
        }
        assert(entry_views(r@) =~= entry_views(self.entries@));
        r
    }

    /// Marks a scan as running and returns true, or returns false and
    /// changes nothing where one already runs.
    pub fn start_indexing(&mut self) -> (r: bool)
        requires
            old(self).wf(),
        ensures
            final(self).wf(),
            (final(self)@, r) == start_indexing_spec(old(self)@),
    {
        if self.indexing {
            return false;
        }
        self.indexing = true;
        true
    }

    /// Publishes the result of a finished scan: the list and its count
    /// replace the old ones, and the scan is no longer running.
    pub fn publish(&mut self, entries: Vec<ProgramEntry>)
        requires
            old(self).wf(),
        ensures
            final(self).wf(),
            final(self)@ == publish_spec(old(self)@, entry_views(entries@)),
    {
        let n = entries.len();
        self.entries = entries;
        self.count = n;
        self.indexing = false;
    }

    /// Publishes a list read back from the snapshot on disk, where one could
    /// be read and parsed; otherwise changes nothing. Returns whether a list
    /// was published.
    pub fn load_cache(&mut self, cached: Option<Vec<ProgramEntry>>) -> (r: bool)
        requires
            old(self).wf(),
        ensures
            final(self).wf(),
            r == cached is Some,
            match cached {
                Some(es) => final(self)@ == (IndexView {
                    entries: entry_views(es@),
                    count: es@.len(),
                    ..old(self)@
                }),
                None => final(self)@ == old(self)@,
            },
    {
        match cached {
            Some(es) => {
                let n = es.len();
                self.entries = es;
                self.count = n;
                true
            },
            None => false,
        }
    }
}

} // verus!
