//! The order of published entries: source priority, then display name.
use vstd::prelude::*;
use crate::entry::{entry_views, priority, EntryView, ProgramEntry, ProgramSource};
use crate::text::chars_of;

verus! {

/// `a` comes no later than `b` in code-point lexicographic order, the order
/// of `String`'s comparison.
pub open spec fn lex_le(a: Seq<char>, b: Seq<char>) -> bool
    decreases a.len(),
{
    if a.len() == 0 {
        true
    } else if b.len() == 0 {
        false
    } else if a[0] != b[0] {
        (a[0] as int) < (b[0] as int)
    } else {
        lex_le(a.drop_first(), b.drop_first())
    }
}

pub proof fn lemma_lex_total(a: Seq<char>, b: Seq<char>)
    ensures
        lex_le(a, b) || lex_le(b, a),
    decreases a.len(),
{
    if a.len() > 0 && b.len() > 0 && a[0] == b[0] {
        lemma_lex_total(a.drop_first(), b.drop_first());
    }
}

pub proof fn lemma_lex_trans(a: Seq<char>, b: Seq<char>, c: Seq<char>)
    requires
        lex_le(a, b),
        lex_le(b, c),
    ensures
        lex_le(a, c),
    decreases a.len(),
{
    if a.len() > 0 && b.len() > 0 && c.len() > 0 && a[0] == b[0] && b[0] == c[0] {
        lemma_lex_trans(a.drop_first(), b.drop_first(), c.drop_first());
    }
}

/// Entry `a` may stand before entry `b`: a higher-ranked source, or the same
/// source and a display name no later in order.
pub open spec fn entry_le(a: EntryView, b: EntryView) -> bool {
    priority(a.source) < priority(b.source) || (priority(a.source) == priority(b.source)
        && lex_le(a.display_name, b.display_name))
}

proof fn lemma_entry_total(a: EntryView, b: EntryView)
    ensures
        entry_le(a, b) || entry_le(b, a),
{
    lemma_lex_total(a.display_name, b.display_name);
}

proof fn lemma_entry_trans(a: EntryView, b: EntryView, c: EntryView)
    requires
        entry_le(a, b),
        entry_le(b, c),
    ensures
        entry_le(a, c),
{
    if priority(a.source) == priority(b.source) && priority(b.source) == priority(c.source) {
        lemma_lex_trans(a.display_name, b.display_name, c.display_name);
    }
}

/// In the published order, the entry at index `a` of `es` goes before the
/// one at index `b`; entries with equal keys keep their order.
pub open spec fn sorts_before(es: Seq<EntryView>, a: int, b: int) -> bool {
    entry_le(es[a], es[b]) && (entry_le(es[b], es[a]) ==> a < b)
}

/// `p` lists every index of `es` once, in the published order.
pub open spec fn is_sorting(es: Seq<EntryView>, p: Seq<usize>) -> bool {
    &&& p.len() == es.len()
    &&& forall|k: int| 0 <= k < p.len() ==> #[trigger] p[k] < es.len()
    &&& forall|i: int, j: int| 0 <= i < j < p.len() ==> p[i] != p[j]
    &&& forall|i: int, j: int|
        0 <= i < j < p.len() ==> #[trigger] sorts_before(es, p[i] as int, p[j] as int)
}

/// `r` is `es` in the published order.
pub open spec fn sorted_from(es: Seq<EntryView>, r: Seq<EntryView>) -> bool {
    exists|p: Seq<usize>|
        is_sorting(es, p) && r.len() == es.len() && forall|k: int|
            0 <= k < r.len() ==> r[k] == #[trigger] es[p[k] as int]
}

/// Compares in code-point lexicographic order.
fn lex_le_exec(a: &Vec<char>, b: &Vec<char>) -> (r: bool)
    ensures
        r == lex_le(a@, b@),
{
    assert(a@.subrange(0, a@.len() as int) =~= a@);
    assert(b@.subrange(0, b@.len() as int) =~= b@);
    let mut i: usize = 0;
    while i < a.len() && i < b.len() && a[i] == b[i]
        invariant
            i <= a@.len(),
            i <= b@.len(),
            lex_le(a@, b@) == lex_le(a@.subrange(i as int, a@.len() as int), b@.subrange(i as int, b@.len() as int)),
        decreases a@.len() - i,
    {
        let ghost sa = a@.subrange(i as int, a@.len() as int);
        let ghost sb = b@.subrange(i as int, b@.len() as int);
        assert(sa.drop_first() =~= a@.subrange(i + 1, a@.len() as int));
        assert(sb.drop_first() =~= b@.subrange(i + 1, b@.len() as int));
        i = i + 1;
    }
    if i == a.len() {
        true
    } else if i == b.len() {
        false
    } else {
        assert(a@.subrange(i as int, a@.len() as int)[0] == a@[i as int]);
        assert(b@.subrange(i as int, b@.len() as int)[0] == b@[i as int]);
        a[i] < b[i]
    }
}

/// Whether the entry at `j` may stand before the one at `i`.
fn entry_le_at(entries: &Vec<ProgramEntry>, names: &Vec<Vec<char>>, j: usize, i: usize) -> (r: bool)
    requires
        j < entries@.len(),
        i < entries@.len(),
        names@.len() == entries@.len(),
        forall|k: int| 0 <= k < names@.len() ==> #[trigger] names@[k]@ == entries@[k].display_name@,
    ensures
        r == entry_le(entries@[j as int]@, entries@[i as int]@),
{
    let pri_i: u8 = match entries[i].source {
        ProgramSource::StartMenu => 0,
        ProgramSource::ProgramFiles => 1,
    };
    let pri_j: u8 = match entries[j].source {
        ProgramSource::StartMenu => 0,
        ProgramSource::ProgramFiles => 1,
    };
    pri_j < pri_i || (pri_j == pri_i && lex_le_exec(&names[j], &names[i]))
}

/// The entries in the published order, stable on equal keys.
pub fn sort_entries(entries: Vec<ProgramEntry>) -> (r: Vec<ProgramEntry>)
    ensures
        sorted_from(entry_views(entries@), entry_views(r@)),
{
    let ghost es = entry_views(entries@);
    let n = entries.len();
    let mut names: Vec<Vec<char>> = Vec::new();
    let mut i: usize = 0;
    while i < n
        invariant
            es == entry_views(entries@),
            n == entries@.len(),
            i <= n,
            names@.len() == i,
            forall|k: int| 0 <= k < i ==> #[trigger] names@[k]@ == es[k].display_name,
        decreases n - i,
    {
        assert(es[i as int] == entries@[i as int]@);
        names.push(chars_of(entries[i].display_name.as_str()));
        i = i + 1;
    }
    let mut p: Vec<usize> = Vec::new();
    let mut i: usize = 0;
    while i < n
        invariant
            es == entry_views(entries@),
            n == entries@.len(),
            names@.len() == n,
            forall|k: int| 0 <= k < n ==> #[trigger] names@[k]@ == es[k].display_name,
            i <= n,
            p@.len() == i,
            forall|k: int| 0 <= k < p@.len() ==> #[trigger] p@[k] < i,
            forall|a: int, b: int| 0 <= a < b < p@.len() ==> p@[a] != p@[b],
            forall|a: int, b: int|
                0 <= a < b < p@.len() ==> #[trigger] sorts_before(es, p@[a] as int, p@[b] as int),
        decreases n - i,
    {
        let mut pos: usize = 0;
        while pos < p.len() && entry_le_at(&entries, &names, p[pos], i)
            invariant
                es == entry_views(entries@),
                n == entries@.len(),
                names@.len() == n,
                forall|k: int| 0 <= k < n ==> #[trigger] names@[k]@ == es[k].display_name,
                i < n,
                p@.len() == i,
                pos <= p@.len(),
                forall|k: int| 0 <= k < p@.len() ==> #[trigger] p@[k] < i,
                forall|k: int| 0 <= k < pos ==> entry_le(es[#[trigger] p@[k] as int], es[i as int]),
            decreases p@.len() - pos,
        {
            pos = pos + 1;
        }
        let ghost old_p = p@;
        proof {
            if pos < old_p.len() {
                assert(!entry_le(es[old_p[pos as int] as int], es[i as int]));
                lemma_entry_total(es[old_p[pos as int] as int], es[i as int]);
            }
        }
        p.insert(pos, i);
        proof {
            assert(p@ == old_p.insert(pos as int, i));
            assert forall|k: int| 0 <= k < p@.len() implies #[trigger] p@[k] < i + 1 by {
                if k < pos {
                    assert(p@[k] == old_p[k]);
                } else if k > pos {
                    assert(p@[k] == old_p[k - 1]);
                }
            }
            assert forall|a: int, b: int| 0 <= a < b < p@.len() implies p@[a] != p@[b] by {
                if a < pos {
                    assert(p@[a] == old_p[a]);
                } else if a > pos {
                    assert(p@[a] == old_p[a - 1]);
                }
                if b < pos {
                    assert(p@[b] == old_p[b]);
                } else if b > pos {
                    assert(p@[b] == old_p[b - 1]);
                }
            }
            assert forall|a: int, b: int| 0 <= a < b < p@.len() implies #[trigger] sorts_before(
                es,
                p@[a] as int,
                p@[b] as int,
            ) by {
                if b < pos {
                    assert(p@[a] == old_p[a]);
                    assert(p@[b] == old_p[b]);
                    assert(sorts_before(es, old_p[a] as int, old_p[b] as int));
                } else if b == pos {
                    assert(p@[a] == old_p[a]);
                    assert(entry_le(es[old_p[a] as int], es[i as int]));
                } else if a < pos {
                    assert(p@[a] == old_p[a]);
                    assert(p@[b] == old_p[b - 1]);
                    assert(sorts_before(es, old_p[a] as int, old_p[b - 1] as int));
                } else if a == pos {
                    let x = old_p[pos as int] as int;
                    let y = old_p[b - 1] as int;
                    assert(p@[b] == old_p[b - 1]);
                    if b - 1 > pos {
                        assert(sorts_before(es, x, y));
                        lemma_entry_trans(es[i as int], es[x], es[y]);
                        if entry_le(es[y], es[i as int]) {
                            lemma_entry_trans(es[x], es[y], es[i as int]);
                        }
                    }
                } else {
                    assert(p@[a] == old_p[a - 1]);
                    assert(p@[b] == old_p[b - 1]);
                    assert(sorts_before(es, old_p[a - 1] as int, old_p[b - 1] as int));
                }
            }
        }
        i = i + 1;
    }
    let mut r: Vec<ProgramEntry> = Vec::new();
    let mut k: usize = 0;
    while k < n
        invariant
            es == entry_views(entries@),
            n == entries@.len(),
            is_sorting(es, p@),
            k <= n,
            r@.len() == k,
            forall|j: int| 0 <= j < k ==> #[trigger] r@[j]@ == es[p@[j] as int],
        decreases n - k,
    {
        r.push(entries[p[k]].duplicate());
        k = k + 1;
    }
    assert forall|j: int| 0 <= j < r@.len() implies #[trigger] entry_views(r@)[j] == es[p@[j] as int] by {
        assert(r@[j]@ == es[p@[j] as int]);
    }
    r
}

} // verus!
