//! What it means to sort a sequence stably, and why the outcome is unique.
//!
//! A stable sort by `rank` rearranges a sequence so that ranks never
//! decrease from left to right and items of equal rank keep the order in
//! which they stood before. The rearrangement is described by a sequence of
//! source positions: item `j` of the outcome is item `src[j]` of the input.

use vstd::prelude::*;
use vstd::set_lib::*;

verus! {

/// Position `a` of `items` comes before position `b` once `items` is sorted
/// stably by `rank`: its rank is lower, or the ranks are equal and it stood
/// further left.
pub open spec fn precedes<T>(items: Seq<T>, rank: spec_fn(T) -> int, a: int, b: int) -> bool {
    rank(items[a]) < rank(items[b]) || (rank(items[a]) == rank(items[b]) && a < b)
}

/// `after` lists the items of `before` in the order given by `src`, and that
/// order is the stable ascending order by `rank`.
pub open spec fn arranged_by<T>(
    before: Seq<T>,
    after: Seq<T>,
    rank: spec_fn(T) -> int,
    src: Seq<int>,
) -> bool {
    &&& after.len() == before.len()
    &&& src.len() == before.len()
    &&& forall|j: int| 0 <= j < src.len() ==> 0 <= #[trigger] src[j] < before.len()
    &&& forall|j: int| 0 <= j < src.len() ==> #[trigger] after[j] == before[src[j]]
    &&& forall|j: int, k: int|
        0 <= j < k < src.len() ==> precedes(before, rank, #[trigger] src[j], #[trigger] src[k])
}

/// `after` is `before` sorted stably in ascending order of `rank`.
pub open spec fn sorts_stably<T>(before: Seq<T>, after: Seq<T>, rank: spec_fn(T) -> int) -> bool {
    exists|src: Seq<int>| arranged_by(before, after, rank, src)
}

/// Every position of the input is the source of some position of the
/// outcome: a stable sort drops nothing.
pub proof fn lemma_sources_cover<T>(
    before: Seq<T>,
    after: Seq<T>,
    rank: spec_fn(T) -> int,
    src: Seq<int>,
    i: int,
)
    requires
        arranged_by(before, after, rank, src),
        0 <= i < before.len(),
    ensures
        src.contains(i),
{
    let n = before.len() as int;
    assert(src.no_duplicates()) by {
        assert forall|j: int, k: int| 0 <= j < src.len() && 0 <= k < src.len() && j != k implies src[j]
            != src[k] by {
            if j < k {
                assert(precedes(before, rank, src[j], src[k]));
            } else {
                assert(precedes(before, rank, src[k], src[j]));
            }
        }
    }
    src.unique_seq_to_set();
    lemma_int_range(0, n);
    if !src.contains(i) {
        let rest = set_int_range(0, n).remove(i);
        assert(src.to_set().subset_of(rest)) by {
            assert forall|x: int| src.to_set().contains(x) implies rest.contains(x) by {
                assert(src.contains(x));
                let j = choose|j: int| 0 <= j < src.len() && src[j] == x;
                assert(0 <= src[j] < n);
            }
        }
        lemma_len_subset(src.to_set(), rest);
        assert(false);
    }
}

/// Two stable arrangements of one input use the same sources up to `upto`.
proof fn lemma_sources_agree<T>(
    before: Seq<T>,
    rank: spec_fn(T) -> int,
    first: Seq<T>,
    src1: Seq<int>,
    second: Seq<T>,
    src2: Seq<int>,
    upto: int,
)
    requires
        arranged_by(before, first, rank, src1),
        arranged_by(before, second, rank, src2),
        0 <= upto <= before.len(),
    ensures
        forall|j: int| 0 <= j < upto ==> src1[j] == src2[j],
    decreases upto,
{
    if upto > 0 {
        lemma_sources_agree(before, rank, first, src1, second, src2, upto - 1);
        let j = upto - 1;
        let a = src1[j];
        let b = src2[j];
        if a != b {
            if precedes(before, rank, a, b) {
                lemma_sources_cover(before, second, rank, src2, a);
                let k = choose|k: int| 0 <= k < src2.len() && src2[k] == a;
                if k < j {
                    assert(src1[k] == src2[k]);
                    assert(precedes(before, rank, src1[k], src1[j]));
                } else if k > j {
                    assert(precedes(before, rank, src2[j], src2[k]));
                }
                assert(false);
            } else {
                assert(precedes(before, rank, b, a));
                lemma_sources_cover(before, first, rank, src1, b);
                let k = choose|k: int| 0 <= k < src1.len() && src1[k] == b;
                if k < j {
                    assert(src1[k] == src2[k]);
                    assert(precedes(before, rank, src2[k], src2[j]));
                } else if k > j {
                    assert(precedes(before, rank, src1[j], src1[k]));
                }
                assert(false);
            }
        }
    }
}

/// A sequence has exactly one stable sort by a given rank.
pub proof fn lemma_stable_sort_unique<T>(
    before: Seq<T>,
    first: Seq<T>,
    second: Seq<T>,
    rank: spec_fn(T) -> int,
)
    requires
        sorts_stably(before, first, rank),
        sorts_stably(before, second, rank),
    ensures
        first == second,
{
    let src1 = choose|src: Seq<int>| arranged_by(before, first, rank, src);
    let src2 = choose|src: Seq<int>| arranged_by(before, second, rank, src);
    lemma_sources_agree(before, rank, first, src1, second, src2, before.len() as int);
    assert(first =~= second) by {
        assert forall|j: int| 0 <= j < first.len() implies first[j] == second[j] by {
            assert(src1[j] == src2[j]);
        }
    }
}

/// After a stable sort the ranks never decrease from left to right.
pub proof fn lemma_sorted_ranks_ascend<T>(before: Seq<T>, after: Seq<T>, rank: spec_fn(T) -> int)
    requires
        sorts_stably(before, after, rank),
    ensures
        forall|j: int, k: int| 0 <= j < k < after.len() ==> rank(after[j]) <= rank(after[k]),
{
    let src = choose|src: Seq<int>| arranged_by(before, after, rank, src);
    assert forall|j: int, k: int| 0 <= j < k < after.len() implies rank(after[j]) <= rank(
        after[k],
    ) by {
        assert(precedes(before, rank, src[j], src[k]));
    }
}

/// A stable sort keeps the items: whatever occurs before occurs after, and
/// nothing else does.
pub proof fn lemma_sorted_same_items<T>(before: Seq<T>, after: Seq<T>, rank: spec_fn(T) -> int)
    requires
        sorts_stably(before, after, rank),
    ensures
        after.len() == before.len(),
        forall|x: T| after.contains(x) <==> before.contains(x),
{
    let src = choose|src: Seq<int>| arranged_by(before, after, rank, src);
    assert forall|x: T| after.contains(x) <==> before.contains(x) by {
        if after.contains(x) {
            let j = choose|j: int| 0 <= j < after.len() && after[j] == x;
            assert(before[src[j]] == x);
        }
        if before.contains(x) {
            let i = choose|i: int| 0 <= i < before.len() && before[i] == x;
            lemma_sources_cover(before, after, rank, src, i);
            let j = choose|j: int| 0 <= j < src.len() && src[j] == i;
            assert(after[j] == x);
        }
    }
}

/// Where position `last` of `items` goes among the sources `src`, which
/// are in stable order already and all lie left of `last`: behind every
/// source whose rank is not higher.
spec fn slot<T>(items: Seq<T>, rank: spec_fn(T) -> int, src: Seq<int>, last: int) -> int
    decreases src.len(),
{
    if src.len() == 0 {
        0
    } else if rank(items[src.last()]) <= rank(items[last]) {
        src.len() as int
    } else {
        slot(items, rank, src.drop_last(), last)
    }
}

/// `slot` splits the sources: those before it rank no higher than `last`,
/// those from it on rank higher.
proof fn lemma_slot_splits<T>(items: Seq<T>, rank: spec_fn(T) -> int, src: Seq<int>, last: int)
    requires
        forall|j: int| 0 <= j < src.len() ==> 0 <= #[trigger] src[j] < last,
        forall|j: int, k: int|
            0 <= j < k < src.len() ==> precedes(items, rank, #[trigger] src[j], #[trigger] src[k]),
    ensures
        0 <= slot(items, rank, src, last) <= src.len(),
        forall|j: int|
            0 <= j < slot(items, rank, src, last) ==> rank(items[#[trigger] src[j]]) <= rank(
                items[last],
            ),
        forall|j: int|
            slot(items, rank, src, last) <= j < src.len() ==> rank(items[#[trigger] src[j]]) > rank(
                items[last],
            ),
    decreases src.len(),
{
    if src.len() > 0 {
        let n = src.len() - 1;
        if rank(items[src.last()]) <= rank(items[last]) {
            assert forall|j: int| 0 <= j < src.len() implies rank(items[#[trigger] src[j]]) <= rank(
                items[last],
            ) by {
                if j < n {
                    assert(precedes(items, rank, src[j], src[n]));
                }
            }
        } else {
            let init = src.drop_last();
            assert forall|j: int, k: int| 0 <= j < k < init.len() implies precedes(
                items,
                rank,
                #[trigger] init[j],
                #[trigger] init[k],
            ) by {
                assert(init[j] == src[j] && init[k] == src[k]);
            }
            assert forall|j: int| 0 <= j < init.len() implies 0 <= #[trigger] init[j] < last by {
                assert(init[j] == src[j]);
            }
            lemma_slot_splits(items, rank, init, last);
            assert forall|j: int| slot(items, rank, src, last) <= j < src.len() implies rank(
                items[#[trigger] src[j]],
            ) > rank(items[last]) by {
                if j < n {
                    assert(init[j] == src[j]);
                }
            }
            assert forall|j: int| 0 <= j < slot(items, rank, src, last) implies rank(
                items[#[trigger] src[j]],
            ) <= rank(items[last]) by {
                assert(init[j] == src[j]);
            }
        }
    }
}

/// Every sequence has a stable sort by every rank.
pub proof fn lemma_stable_sort_exists<T>(before: Seq<T>, rank: spec_fn(T) -> int)
    ensures
        exists|after: Seq<T>| sorts_stably(before, after, rank),
    decreases before.len(),
{
    if before.len() == 0 {
        assert(arranged_by(before, before, rank, Seq::<int>::empty()));
        assert(sorts_stably(before, before, rank));
    } else {
        let last = before.len() - 1;
        let init = before.drop_last();
        lemma_stable_sort_exists(init, rank);
        let sorted = choose|after: Seq<T>| sorts_stably(init, after, rank);
        let src = choose|src: Seq<int>| arranged_by(init, sorted, rank, src);
        assert forall|j: int, k: int| 0 <= j < k < src.len() implies precedes(
            before,
            rank,
            #[trigger] src[j],
            #[trigger] src[k],
        ) by {
            assert(precedes(init, rank, src[j], src[k]));
            assert(init[src[j]] == before[src[j]]);
            assert(init[src[k]] == before[src[k]]);
        }
        lemma_slot_splits(before, rank, src, last);
        let p = slot(before, rank, src, last);
        let wider = src.insert(p, last);
        let after = sorted.insert(p, before[last]);
        assert forall|j: int| 0 <= j < wider.len() implies 0 <= #[trigger] wider[j]
            < before.len() by {
            if j < p {
                assert(wider[j] == src[j]);
            } else if j > p {
                assert(wider[j] == src[j - 1]);
            }
        }
        assert forall|j: int| 0 <= j < wider.len() implies #[trigger] after[j]
            == before[wider[j]] by {
            if j < p {
                assert(wider[j] == src[j]);
                assert(after[j] == sorted[j]);
                assert(init[src[j]] == before[src[j]]);
            } else if j > p {
                assert(wider[j] == src[j - 1]);
                assert(after[j] == sorted[j - 1]);
                assert(init[src[j - 1]] == before[src[j - 1]]);
            }
        }
        assert forall|j: int, k: int| 0 <= j < k < wider.len() implies precedes(
            before,
            rank,
            #[trigger] wider[j],
            #[trigger] wider[k],
        ) by {
            let a = if j < p {
                j
            } else {
                j - 1
            };
            let b = if k < p {
                k
            } else {
                k - 1
            };
            if j == p {
                assert(wider[k] == src[b]);
                assert(rank(before[src[b]]) > rank(before[last]));
            } else if k == p {
                assert(wider[j] == src[a]);
                assert(rank(before[src[a]]) <= rank(before[last]));
                assert(src[a] < last);
            } else {
                assert(wider[j] == src[a]);
                assert(wider[k] == src[b]);
                assert(precedes(before, rank, src[a], src[b]));
            }
        }
        assert(arranged_by(before, after, rank, wider));
        assert(sorts_stably(before, after, rank));
    }
}

} // verus!
