//! Ordering of what the reports list: larger values first, and among equal values the one that
//! was recorded first.

use vstd::prelude::*;

verus! {

/// An entry of a report by the numbers that place it: `major` decides, then `minor`, then
/// `index`, the place that the entry had before it was ordered.
#[derive(Clone, Copy, Debug)]
pub struct Ranked {
    pub major: u64,
    pub minor: u64,
    pub index: usize,
}

/// Whether entry `a` is listed before entry `b`: a larger `major` comes first, then a larger
/// `minor`, then a smaller `index`.
pub open spec fn ranks_before(a: Ranked, b: Ranked) -> bool {
    a.major > b.major || (a.major == b.major && (a.minor > b.minor || (a.minor == b.minor
        && a.index < b.index)))
}

/// Whether no entry of `s` stands behind one that it should be listed before.
pub open spec fn in_rank_order(s: Seq<Ranked>) -> bool {
    forall|i: int, j: int| 0 <= i < j < s.len() ==> !ranks_before(#[trigger] s[j], #[trigger] s[i])
}

/// Whether no two entries of `s` have the same `index`.
pub open spec fn distinct_indices(s: Seq<Ranked>) -> bool {
    forall|i: int, j: int|
        0 <= i < j < s.len() ==> (#[trigger] s[i]).index != (#[trigger] s[j]).index
}

/// Whether `a` is listed before `b`.
pub fn goes_before(a: &Ranked, b: &Ranked) -> (r: bool)
    ensures
        r == ranks_before(*a, *b),
{
    a.major > b.major || (a.major == b.major && (a.minor > b.minor || (a.minor == b.minor
        && a.index < b.index)))
}

/// The entries of `items` in rank order. Entries that are already nearly in order, read from
/// the back, are placed with little searching.
pub fn sort_ranked(items: &Vec<Ranked>) -> (out: Vec<Ranked>)
    ensures
        in_rank_order(out@),
        out@.to_multiset() == items@.to_multiset(),
        out@.len() == items@.len(),
        forall|x: Ranked| out@.contains(x) <==> items@.contains(x),
        distinct_indices(items@) ==> distinct_indices(out@),
{
    broadcast use vstd::seq_lib::group_to_multiset_ensures;

    let n = items.len();
    let mut out: Vec<Ranked> = Vec::new();
    let mut i: usize = n;
    assert(items@.subrange(n as int, n as int) =~= out@);
    while i > 0
        invariant
            n == items@.len(),
            i <= n,
            in_rank_order(out@),
            out@.len() == n - i,
            out@.to_multiset() == items@.subrange(i as int, n as int).to_multiset(),
        decreases i,
    {
        i = i - 1;
        let x = items[i];
        let mut p: usize = out.len();
        while p > 0 && goes_before(&x, &out[p - 1])
            invariant
                p <= out@.len(),
                forall|k: int| p <= k < out@.len() ==> ranks_before(x, #[trigger] out@[k]),
            decreases p,
        {
            p = p - 1;
        }
        let ghost before = out@;
        out.insert(p, x);
        proof {
            let rest = items@.subrange(i as int + 1, n as int);
            assert(items@.subrange(i as int, n as int) =~= rest.insert(0, x));
            assert(out@ == before.insert(p as int, x));
            vstd::seq_lib::to_multiset_insert(before, p as int, x);
            vstd::seq_lib::to_multiset_insert(rest, 0, x);
            assert forall|a: int, b: int| 0 <= a < b < out@.len() implies !ranks_before(
                #[trigger] out@[b],
                #[trigger] out@[a],
            ) by {
                if b < p {
                    assert(out@[a] == before[a] && out@[b] == before[b]);
                } else if b == p {
                    assert(out@[a] == before[a]);
                    if a < p - 1 {
                        assert(!ranks_before(before[p - 1], before[a]));
                    }
                } else if a < p {
                    assert(out@[a] == before[a] && out@[b] == before[b - 1]);
                } else if a == p {
                    assert(out@[b] == before[b - 1]);
                } else {
                    assert(out@[a] == before[a - 1] && out@[b] == before[b - 1]);
                }
            }
        }
    }
    proof {
        assert(items@.subrange(0, n as int) =~= items@);
        assert forall|x: Ranked| out@.contains(x) <==> items@.contains(x) by {
            assert(out@.to_multiset().count(x) == items@.to_multiset().count(x));
        }
        if distinct_indices(items@) {
            lemma_distinct_entries(items@);
            items@.lemma_multiset_has_no_duplicates();
            out@.lemma_multiset_has_no_duplicates_conv();
            assert forall|a: int, b: int| 0 <= a < b < out@.len() implies (
            #[trigger] out@[a]).index != (#[trigger] out@[b]).index by {
                assert(items@.contains(out@[a]) && items@.contains(out@[b]));
                let ia = choose|k: int| 0 <= k < items@.len() && items@[k] == out@[a];
                let ib = choose|k: int| 0 <= k < items@.len() && items@[k] == out@[b];
                assert(ia != ib);
            }
        }
    }
    out
}

/// Entries with distinct indices are distinct entries.
pub proof fn lemma_distinct_entries(s: Seq<Ranked>)
    requires
        distinct_indices(s),
    ensures
        s.no_duplicates(),
{
    assert forall|i: int, j: int| 0 <= i < s.len() && 0 <= j < s.len() && i != j implies s[i]
        != s[j] by {
        if i < j {
            assert(s[i].index != s[j].index);
        } else {
            assert(s[j].index != s[i].index);
        }
    }
}

/// Entries in rank order with distinct indices are in strict order: each is listed before
/// all that follow it.
pub proof fn lemma_strict_rank_order(s: Seq<Ranked>)
    requires
        in_rank_order(s),
        distinct_indices(s),
    ensures
        forall|i: int, j: int|
            0 <= i < j < s.len() ==> ranks_before(#[trigger] s[i], #[trigger] s[j]),
{
    assert forall|i: int, j: int| 0 <= i < j < s.len() implies ranks_before(
        #[trigger] s[i],
        #[trigger] s[j],
    ) by {
        assert(!ranks_before(s[j], s[i]));
        assert(s[i].index != s[j].index);
    }
}

/// Whether some entry of `s` has the index `at`.
pub open spec fn lists_index(s: Seq<Ranked>, at: int) -> bool {
    exists|k: int| 0 <= k < s.len() && (#[trigger] s[k]).index == at
}

/// One entry for each place of `totals` that holds more than zero, ranked by what it holds.
pub fn positive_entries(totals: &Vec<u64>) -> (items: Vec<Ranked>)
    ensures
        distinct_indices(items@),
        forall|k: int|
            0 <= k < items@.len() ==> {
                let e = #[trigger] items@[k];
                e.index < totals@.len() && e.major == totals@[e.index as int] && e.major > 0
                    && e.minor == 0
            },
        forall|a: int| 0 <= a < totals@.len() && totals@[a] > 0 ==> lists_index(items@, a),
{
    let mut items: Vec<Ranked> = Vec::new();
    let mut a: usize = 0;
    while a < totals.len()
        invariant
            a <= totals@.len(),
            forall|i: int, j: int|
                0 <= i < j < items@.len() ==> (#[trigger] items@[i]).index < (
                #[trigger] items@[j]).index,
            forall|k: int|
                0 <= k < items@.len() ==> {
                    let e = #[trigger] items@[k];
                    e.index < a && e.major == totals@[e.index as int] && e.major > 0 && e.minor
                        == 0
                },
            forall|b: int| 0 <= b < a && totals@[b] > 0 ==> lists_index(items@, b),
        decreases totals@.len() - a,
    {
        if totals[a] > 0 {
            let ghost before = items@;
            items.push(Ranked { major: totals[a], minor: 0, index: a });
            proof {
                assert(items@[before.len() as int].index == a);
                assert forall|b: int| 0 <= b < a + 1 && totals@[b] > 0 implies lists_index(
                    items@,
                    b,
                ) by {
                    if b < a {
                        assert(lists_index(before, b));
                        let k = choose|k: int|
                            0 <= k < before.len() && (#[trigger] before[k]).index == b;
                        assert(items@[k].index == b);
                    }
                }
            }
        }
        a = a + 1;
    }
    items
}

} // verus!
