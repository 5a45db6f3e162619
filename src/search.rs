//! Ranked fuzzy search over a snapshot of the index.
use vstd::prelude::*;
use fuzzy_matcher::skim::SkimMatcherV2;
use fuzzy_matcher::FuzzyMatcher;
use crate::entry::{entry_views, EntryView, ProgramEntry, ProgramSource};
use crate::text::{is_prefix, lower_of, lowercase, starts_with};

verus! {

/// Entries listed for an empty query.
pub const BROWSE_LIMIT: usize = 20;

/// Results kept for a non-empty query.
pub const RESULT_CAP: usize = 50;

/// Added to the score of an entry from the higher-ranked source.
pub const SOURCE_BONUS: i64 = 50;

/// Added to the score of an entry whose lowercased display name starts with
/// the lowercased query; larger than `SOURCE_BONUS`.
pub const PREFIX_BONUS: i64 = 100;

/// The matcher of `fuzzy_matcher::skim`, carried opaque inside `SearchEngine`.
#[verifier::external_type_specification]
#[verifier::external_body]
pub struct ExSkimMatcherV2(SkimMatcherV2);

/// The score that a default `SkimMatcherV2` gives `choice` for `pattern`,
/// `None` where they do not match.
pub uninterp spec fn skim_score(choice: Seq<char>, pattern: Seq<char>) -> Option<i64>;

/// Relies on `SkimMatcherV2::default`: a matcher with smart case and no
/// element limit.
#[verifier::external_body]
fn default_matcher() -> SkimMatcherV2 {
    SkimMatcherV2::default()
}

/// Relies on `FuzzyMatcher::fuzzy_match` of a default `SkimMatcherV2`: the
/// score depends on the two strings alone and is an `i32` widened to `i64`.
#[verifier::external_body]
fn fuzzy_score(matcher: &SkimMatcherV2, choice: &str, pattern: &str) -> (r: Option<i64>)
    ensures
        r == skim_score(choice@, pattern@),
        r is Some ==> i32::MIN <= r->0 <= i32::MAX,
{
    matcher.fuzzy_match(choice, pattern)
}

/// One ranked entry.
#[derive(Clone, Debug)]
pub struct SearchResult {
    pub entry: ProgramEntry,
    pub score: i64,
}

pub struct ResultView {
    pub entry: EntryView,
    pub score: int,
}

impl View for SearchResult {
    type V = ResultView;

    open spec fn view(&self) -> ResultView {
        ResultView { entry: self.entry@, score: self.score as int }
    }
}

pub open spec fn result_views(rs: Seq<SearchResult>) -> Seq<ResultView> {
    rs.map_values(|r: SearchResult| r@)
}

/// The larger of two optional scores, where any score beats none.
pub open spec fn best_of(a: Option<i64>, b: Option<i64>) -> Option<i64> {
    match (a, b) {
        (Some(x), Some(y)) => Some(if x >= y { x } else { y }),
        (Some(x), None) => Some(x),
        (None, _) => b,
    }
}

pub open spec fn source_bonus(s: ProgramSource) -> int {
    if s == ProgramSource::StartMenu { SOURCE_BONUS as int } else { 0 }
}

/// `q` is the lowercased query.
pub open spec fn prefix_bonus(q: Seq<char>, e: EntryView) -> int {
    if is_prefix(q, lower_of(e.display_name)) { PREFIX_BONUS as int } else { 0 }
}

/// The better of the matches of `q` against the lowercased display name and
/// against the stored short name.
pub open spec fn base_score(q: Seq<char>, e: EntryView) -> Option<i64> {
    best_of(skim_score(lower_of(e.display_name), q), skim_score(e.name, q))
}

/// The final score of an entry for the lowercased query `q`; `None` where it
/// is left out.
pub open spec fn entry_score(q: Seq<char>, e: EntryView) -> Option<int> {
    match base_score(q, e) {
        Some(b) => Some(b + source_bonus(e.source) + prefix_bonus(q, e)),
        None => None,
    }
}

/// The entries that match `q`, in their stored order, with their scores.
pub open spec fn matched(q: Seq<char>, es: Seq<EntryView>) -> Seq<ResultView>
    decreases es.len(),
{
    if es.len() == 0 {
        Seq::empty()
    } else {
        let rest = matched(q, es.drop_last());
        match entry_score(q, es.last()) {
            Some(s) => rest.push(ResultView { entry: es.last(), score: s }),
            None => rest,
        }
    }
}

/// Candidate `a` is listed before candidate `b`: a higher score first, and
/// on equal scores the earlier one first.
pub open spec fn ranks_before(c: Seq<ResultView>, a: int, b: int) -> bool {
    c[a].score > c[b].score || (c[a].score == c[b].score && a < b)
}

/// `p` lists every candidate of `c` once, in rank order.
pub open spec fn is_ranking(c: Seq<ResultView>, p: Seq<usize>) -> bool {
    &&& p.len() == c.len()
    &&& forall|k: int| 0 <= k < p.len() ==> #[trigger] p[k] < c.len()
    &&& forall|i: int, j: int| 0 <= i < j < p.len() ==> p[i] != p[j]
    &&& forall|i: int, j: int|
        0 <= i < j < p.len() ==> #[trigger] ranks_before(c, p[i] as int, p[j] as int)
}

/// The results of a non-empty query: the first `RESULT_CAP` candidates in
/// rank order.
pub open spec fn ranked_results(q: Seq<char>, es: Seq<EntryView>, r: Seq<ResultView>) -> bool {
    let c = matched(q, es);
    &&& r.len() == if c.len() < RESULT_CAP { c.len() } else { RESULT_CAP as nat }
    &&& exists|p: Seq<usize>|
        is_ranking(c, p) && forall|k: int| 0 <= k < r.len() ==> r[k] == #[trigger] c[p[k] as int]
}

/// The results of an empty query: the first `BROWSE_LIMIT` entries in stored
/// order, each with score zero.
pub open spec fn browse_results(es: Seq<EntryView>, r: Seq<ResultView>) -> bool {
    &&& r.len() == if es.len() < BROWSE_LIMIT { es.len() } else { BROWSE_LIMIT as nat }
    &&& forall|k: int| 0 <= k < r.len() ==> #[trigger] r[k] == (ResultView { entry: es[k], score: 0 })
}

/// Of two entries from the same source with the same base score, the one
/// whose lowercased display name starts with the query scores higher: the
/// prefix bonus is not offset by anything else.
pub proof fn lemma_prefix_outranks(q: Seq<char>, a: EntryView, b: EntryView)
    requires
        a.source == b.source,
        base_score(q, a) is Some,
        base_score(q, a) == base_score(q, b),
        is_prefix(q, lower_of(a.display_name)),
        !is_prefix(q, lower_of(b.display_name)),
    ensures
        entry_score(q, a) is Some,
        entry_score(q, b) is Some,
        entry_score(q, a)->0 > entry_score(q, b)->0,
{
}

/// The prefix bonus outweighs the source bonus: an entry from the lower
/// source whose name starts with the query beats an entry from the higher
/// source with the same base score whose name does not.
pub proof fn lemma_prefix_beats_source(q: Seq<char>, a: EntryView, b: EntryView)
    requires
        a.source == ProgramSource::ProgramFiles,
        b.source == ProgramSource::StartMenu,
        base_score(q, a) is Some,
        base_score(q, a) == base_score(q, b),
        is_prefix(q, lower_of(a.display_name)),
        !is_prefix(q, lower_of(b.display_name)),
    ensures
        entry_score(q, a)->0 > entry_score(q, b)->0,
{
}

/// In a ranking, a candidate with a higher score is listed earlier.
pub proof fn lemma_higher_score_first(c: Seq<ResultView>, p: Seq<usize>, i: int, j: int)
    requires
        is_ranking(c, p),
        0 <= i < p.len(),
        0 <= j < p.len(),
        c[p[i] as int].score > c[p[j] as int].score,
    ensures
        i < j,
{
    if j < i {
        assert(ranks_before(c, p[j] as int, p[i] as int));
    }
}

/// In a ranking, candidates with equal scores keep their stored order.
pub proof fn lemma_ties_keep_order(c: Seq<ResultView>, p: Seq<usize>, i: int, j: int)
    requires
        is_ranking(c, p),
        0 <= i < p.len(),
        0 <= j < p.len(),
        c[p[i] as int].score == c[p[j] as int].score,
        p[i] < p[j],
    ensures
        i < j,
{
    if j < i {
        assert(ranks_before(c, p[j] as int, p[i] as int));
    } else if j == i {
        assert(p[i] == p[j]);
    }
}

/// Fuzzy search over program entries.
pub struct SearchEngine {
    matcher: SkimMatcherV2,
}

impl SearchResult {
    fn duplicate(&self) -> (r: SearchResult)
        ensures
            r@ == self@,
    {
        SearchResult { entry: self.entry.duplicate(), score: self.score }
    }
}

/// Lists the indices of `c` in rank order, stable on equal scores.
fn rank_order(c: &Vec<SearchResult>) -> (p: Vec<usize>)
    ensures
        is_ranking(result_views(c@), p@),
{
    let ghost cv = result_views(c@);
    let mut p: Vec<usize> = Vec::new();
    let mut i: usize = 0;
    while i < c.len()
        invariant
            cv == result_views(c@),
            i <= c@.len(),
            p@.len() == i,
            forall|k: int| 0 <= k < p@.len() ==> #[trigger] p@[k] < i,
            forall|a: int, b: int| 0 <= a < b < p@.len() ==> p@[a] != p@[b],
            forall|a: int, b: int|
                0 <= a < b < p@.len() ==> #[trigger] ranks_before(cv, p@[a] as int, p@[b] as int),
        decreases c@.len() - i,
    {
        let s = c[i].score;
        let mut pos: usize = 0;
        while pos < p.len() && c[p[pos]].score >= s
            invariant
                cv == result_views(c@),
                i < c@.len(),
                s == c@[i as int].score,
                p@.len() == i,
                pos <= p@.len(),
                forall|k: int| 0 <= k < p@.len() ==> #[trigger] p@[k] < i,
                forall|k: int| 0 <= k < pos ==> c@[#[trigger] p@[k] as int].score >= s,
            decreases p@.len() - pos,
        {
            pos = pos + 1;
        }
        let ghost old_p = p@;
        p.insert(pos, i);
        proof {
            assert(p@ == old_p.insert(pos as int, i));
            assert forall|k: int| 0 <= k < p@.len() implies #[trigger] p@[k] < i + 1 by {
                if k < pos {
                    assert(p@[k] == old_p[k]);
                } else if k > pos {
                    assert(p@[k] == old_p[k - 1]);
                }
            }
            assert forall|a: int, b: int| 0 <= a < b < p@.len() implies p@[a] != p@[b] by {
                if a < pos {
                    assert(p@[a] == old_p[a]);
                } else if a > pos {
                    assert(p@[a] == old_p[a - 1]);
                }
                if b < pos {
                    assert(p@[b] == old_p[b]);
                } else if b > pos {
                    assert(p@[b] == old_p[b - 1]);
                }
            }
            assert forall|a: int, b: int| 0 <= a < b < p@.len() implies #[trigger] ranks_before(
                cv,
                p@[a] as int,
                p@[b] as int,
            ) by {
                if b < pos {
                    assert(p@[a] == old_p[a]);
                    assert(p@[b] == old_p[b]);
                    assert(ranks_before(cv, old_p[a] as int, old_p[b] as int));
                } else if b == pos {
                    assert(p@[a] == old_p[a]);
                    assert(cv[old_p[a] as int].score == c@[old_p[a] as int].score);
                } else if a < pos {
                    assert(p@[a] == old_p[a]);
                    assert(p@[b] == old_p[b - 1]);
                    assert(ranks_before(cv, old_p[a] as int, old_p[b - 1] as int));
                } else if a == pos {
                    assert(p@[b] == old_p[b - 1]);
                    assert(pos < old_p.len());
                    assert(c@[old_p[pos as int] as int].score < s);
                    if b - 1 > pos {
                        assert(ranks_before(cv, old_p[pos as int] as int, old_p[b - 1] as int));
                    }
                } else {
                    assert(p@[a] == old_p[a - 1]);
                    assert(p@[b] == old_p[b - 1]);
                    assert(ranks_before(cv, old_p[a - 1] as int, old_p[b - 1] as int));
                }
            }
        }
        i = i + 1;
    }
    p
}

/// Whether an optional score lies in the range of the matcher's scores.
pub open spec fn in_score_range(o: Option<i64>) -> bool {
    o is Some ==> i32::MIN <= o->0 <= i32::MAX
}

/// The final score of an entry from the matcher's scores for its display
/// name and its short name, its source, and whether its lowercased display
/// name starts with the lowercased query; `None` where neither name matched.
pub fn combine_scores(display_score: Option<i64>, name_score: Option<i64>, source: ProgramSource, prefix: bool) -> (r:
    Option<i64>)
    requires
        in_score_range(display_score),
        in_score_range(name_score),
    ensures
        r == match best_of(display_score, name_score) {
            Some(b) => Some(
                (b + (if source == ProgramSource::StartMenu { SOURCE_BONUS } else { 0 }) + (if prefix {
                    PREFIX_BONUS
                } else {
                    0
                })) as i64,
            ),
            None => None,
        },
{
    let base = match (display_score, name_score) {
        (Some(x), Some(y)) => if x >= y { x } else { y },
        (Some(x), None) => x,
        (None, Some(y)) => y,
        (None, None) => {
            return None;
        },
    };
    let source_bonus: i64 = match source {
        ProgramSource::StartMenu => SOURCE_BONUS,
        ProgramSource::ProgramFiles => 0,
    };
    let prefix_bonus: i64 = if prefix { PREFIX_BONUS } else { 0 };
    Some(base + source_bonus + prefix_bonus)
}

impl SearchEngine {
    pub fn new() -> Self {
        SearchEngine { matcher: default_matcher() }
    }

    /// Ranks `entries` against `query`.
    ///
    /// An empty query lists the first `BROWSE_LIMIT` entries in stored order
    /// with score zero. Otherwise each entry scores the better fuzzy match of
    /// the lowercased query against its lowercased display name and its short
    /// name, plus `SOURCE_BONUS` for the higher-ranked source and
    /// `PREFIX_BONUS` where the lowercased display name starts with the
    /// lowercased query; entries that match neither are left out. Results
    /// come by score, highest first, and entries with equal scores keep their
    /// stored order. At most `RESULT_CAP` results are returned.
    pub fn search(&self, query: &str, entries: &[ProgramEntry]) -> (r: Vec<SearchResult>)
        ensures
            query@.len() == 0 ==> browse_results(entry_views(entries@), result_views(r@)),
            query@.len() > 0 ==> ranked_results(
                lower_of(query@),
                entry_views(entries@),
                result_views(r@),
            ),
    {
        let ghost es = entry_views(entries@);
        let n = entries.len();
        if query.is_empty() {
            let limit = if n < BROWSE_LIMIT { n } else { BROWSE_LIMIT };
            let mut r: Vec<SearchResult> = Vec::new();
            let mut k: usize = 0;
            while k < limit
                invariant
                    es == entry_views(entries@),
                    limit <= n == entries@.len(),
                    k <= limit,
                    r@.len() == k,
                    forall|j: int| 0 <= j < k ==> #[trigger] r@[j]@ == (ResultView { entry: es[j], score: 0 }),
                decreases limit - k,
            {
                r.push(SearchResult { entry: entries[k].duplicate(), score: 0 });
                k = k + 1;
            }
            assert forall|j: int| 0 <= j < r@.len() implies #[trigger] result_views(r@)[j] == (ResultView { entry: es[j], score: 0 }) by {
                assert(r@[j]@ == (ResultView { entry: es[j], score: 0 }));
            }
            return r;
        }
        let q = lowercase(query);
        let mut cands: Vec<SearchResult> = Vec::new();
        let mut i: usize = 0;
        while i < n
            invariant
                es == entry_views(entries@),
                n == entries@.len(),
                i <= n,
                q@ == lower_of(query@),
                result_views(cands@) == matched(q@, es.subrange(0, i as int)),
            decreases n - i,
        {
            let e = &entries[i];
            let dl = lowercase(e.display_name.as_str());
            let display_score = fuzzy_score(&self.matcher, dl.as_str(), q.as_str());
            let name_score = fuzzy_score(&self.matcher, e.name.as_str(), q.as_str());
            let prefix = starts_with(dl.as_str(), q.as_str());
            let score = combine_scores(display_score, name_score, e.source, prefix);
            let ghost pre = es.subrange(0, i as int);
            let ghost next = es.subrange(0, i + 1);
            assert(next.drop_last() == pre);
            assert(next.last() == e@);
            if let Some(sc) = score {
                cands.push(SearchResult { entry: e.duplicate(), score: sc });
                assert(result_views(cands@) =~= matched(q@, pre).push(ResultView { entry: e@, score: sc as int }));
            }
            i = i + 1;
        }
        assert(es.subrange(0, n as int) == es);
        let ghost c = result_views(cands@);
        let order = rank_order(&cands);
        let m = cands.len();
        let limit = if m < RESULT_CAP { m } else { RESULT_CAP };
        let mut r: Vec<SearchResult> = Vec::new();
        let mut k: usize = 0;
        while k < limit
            invariant
                c == result_views(cands@),
                is_ranking(c, order@),
                limit <= m == cands@.len(),
                k <= limit,
                r@.len() == k,
                forall|j: int| 0 <= j < k ==> #[trigger] r@[j]@ == c[order@[j] as int],
            decreases limit - k,
        {
            r.push(cands[order[k]].duplicate());
            k = k + 1;
        }
        assert forall|j: int| 0 <= j < r@.len() implies #[trigger] result_views(r@)[j] == c[order@[j] as int] by {
            assert(r@[j]@ == c[order@[j] as int]);
        }
        r
    }
}

} // verus!
