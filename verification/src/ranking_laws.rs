//! What the ranking is for: the best score first, and hosts that alternate.

use vstd::prelude::*;
use crate::order::{ints, is_order, law_order_lists_all, order, precedes};
use crate::ranking::{
    alone_keys, final_keys, first_order, lemma_orders, place_of, places, ranking, Placed, Scored,
};
use crate::research::host;

verus! {

/// A list of places stands for the candidates that have them and their numbers of neighbours.
pub proof fn law_places(v: Seq<Placed>)
    ensures
        places(v).len() == v.len(),
        forall|i: int|
            0 <= i < v.len() ==> (#[trigger] places(v)[i]).0 == v[i].index && places(v)[i].1
                == v[i].repeats,
{
}

/// The ranking is sorted by the scores that are shown: the score as it stands for a candidate
/// without a near neighbour of its host, the one that is reduced once for a candidate with one,
/// and the one that is reduced twice for a candidate with two. No candidate stands before one
/// whose shown score is larger, and equal ones stand as they would without penalties.
pub proof fn law_ranking_is_by_shown_scores(items: Seq<Scored>, i: int, j: int)
    requires
        0 <= i < j < items.len(),
    ensures
        ({
            let (a, m) = ranking(items)[i];
            let (b, n) = ranking(items)[j];
            let x = if m == 0 {
                items[a].alone
            } else if m == 1 {
                items[a].once
            } else {
                items[a].twice
            };
            let y = if n == 0 {
                items[b].alone
            } else if n == 1 {
                items[b].once
            } else {
                items[b].twice
            };
            &&& x >= y
            &&& x == y ==> items[a].alone > items[b].alone || items[a].alone == items[b].alone && a
                < b
        }),
{
    lemma_orders(items);
    let second = order(final_keys(items));
    let first = first_order(items);
    assert(precedes(final_keys(items), second[i], second[j]));
    if final_keys(items)[second[i]] == final_keys(items)[second[j]] {
        assert(second[i] < second[j]);
        assert(precedes(alone_keys(items), first[second[i]], first[second[j]]));
    }
}

/// Every candidate has a place.
pub proof fn law_everyone_is_ranked(items: Seq<Scored>, x: int)
    requires
        0 <= x < items.len(),
    ensures
        ranking(items).len() == items.len(),
        exists|j: int| 0 <= j < items.len() && (#[trigger] ranking(items)[j]).0 == x,
{
    lemma_orders(items);
    let second = order(final_keys(items));
    let first = first_order(items);
    law_order_lists_all(alone_keys(items), first);
    law_order_lists_all(final_keys(items), second);
    assert(first.contains(x));
    let k = choose|k: int| 0 <= k < first.len() && first[k] == x;
    assert(second.contains(k));
    let j = choose|j: int| 0 <= j < second.len() && second[j] == k;
    assert(ranking(items)[j].0 == x);
}

/// Whether the candidate `y` has a better score than `x`, or as good a one and came first.
pub open spec fn is_better(items: Seq<Scored>, y: int, x: int) -> bool {
    items[y].alone > items[x].alone || items[y].alone == items[x].alone && y < x
}

/// Whether `y` is one of the two candidates just above `x` by the scores as they stand: it is
/// better, and no two others are between them.
pub open spec fn is_near(items: Seq<Scored>, y: int, x: int) -> bool {
    &&& 0 <= y < items.len()
    &&& is_better(items, y, x)
    &&& forall|z: int, w: int|
        0 <= z < items.len() && 0 <= w < items.len() && #[trigger] is_better(items, y, z)
            && is_better(items, z, x) && #[trigger] is_better(items, y, w) && is_better(items, w, x)
            ==> z == w
}

proof fn lemma_near(items: Seq<Scored>, first: Seq<int>, k: int, y: int)
    requires
        is_order(alone_keys(items), first),
        0 <= k < first.len(),
        0 <= y < items.len(),
    ensures
        is_near(items, y, first[k]) <==> k >= 1 && first[k - 1] == y || k >= 2 && first[k - 2] == y,
{
    let keys = alone_keys(items);
    law_order_lists_all(keys, first);
    let x = first[k];
    assert(first.contains(y));
    let p = choose|p: int| 0 <= p < first.len() && first[p] == y;
    assert forall|a: int, b: int| 0 <= a < first.len() && 0 <= b < first.len() implies (is_better(
        items,
        #[trigger] first[a],
        #[trigger] first[b],
    ) <==> a < b) by {
        if a < b {
            assert(precedes(keys, first[a], first[b]));
        } else if b < a {
            assert(precedes(keys, first[b], first[a]));
        }
    }
    assert(is_better(items, first[p], first[k]) <==> p < k);
    if p < k {
        if p < k - 2 {
            let z = first[k - 1];
            let w = first[k - 2];
            assert(is_better(items, first[p], z) && is_better(items, z, x));
            assert(is_better(items, first[p], w) && is_better(items, w, x));
            assert(z != w);
        } else {
            assert forall|z: int, w: int|
                0 <= z < items.len() && 0 <= w < items.len() && #[trigger] is_better(items, y, z)
                    && is_better(items, z, x) && #[trigger] is_better(items, y, w) && is_better(
                    items,
                    w,
                    x,
                ) implies z == w by {
                assert(first.contains(z) && first.contains(w));
                let q = choose|q: int| 0 <= q < first.len() && first[q] == z;
                let r = choose|r: int| 0 <= r < first.len() && first[r] == w;
                assert(is_better(items, first[p], first[q]) && is_better(items, first[q], first[k]));
                assert(is_better(items, first[p], first[r]) && is_better(items, first[r], first[k]));
            }
        }
    }
    if k >= 1 && first[k - 1] == y {
        assert(p == k - 1);
    }
    if k >= 2 && first[k - 2] == y {
        assert(p == k - 2);
    }
}

/// A score is reduced for near neighbours of the same host and for nothing else: not at all where
/// none of the two candidates just above has the host, twice where both have it, and once
/// otherwise.
pub proof fn law_repeats_are_near_hosts(items: Seq<Scored>, j: int)
    requires
        0 <= j < items.len(),
    ensures
        ({
            let (x, n) = ranking(items)[j];
            &&& n <= 2
            &&& n == 0 <==> forall|y: int| #[trigger]
                is_near(items, y, x) ==> host(items[y].url@) != host(items[x].url@)
            &&& n == 2 <==> exists|y: int, z: int|
                y != z && #[trigger] is_near(items, y, x) && #[trigger] is_near(items, z, x) && host(
                    items[y].url@,
                ) == host(items[x].url@) && host(items[z].url@) == host(items[x].url@)
        }),
{
    lemma_orders(items);
    let first = first_order(items);
    let second = order(final_keys(items));
    let k = place_of(items, j);
    assert(k == second[j]);
    law_order_lists_all(alone_keys(items), first);
    let (x, n) = ranking(items)[j];
    assert(x == first[k]);
    assert forall|y: int| #[trigger] is_near(items, y, x) implies k >= 1 && first[k - 1] == y || k
        >= 2 && first[k - 2] == y by {
        lemma_near(items, first, k, y);
    }
    if k >= 1 {
        lemma_near(items, first, k, first[k - 1]);
    }
    if k >= 2 {
        lemma_near(items, first, k, first[k - 2]);
        assert(first[k - 1] != first[k - 2]);
    }
    if n == 2 {
        let y = first[k - 1];
        let z = first[k - 2];
        assert(is_near(items, y, x) && is_near(items, z, x));
    }
    if n >= 1 {
        if host(items[first[k - 1]].url@) == host(items[x].url@) {
            assert(is_near(items, first[k - 1], x));
        } else {
            assert(is_near(items, first[k - 2], x));
        }
    }
}

/// Positions are the numbers that they are.
pub proof fn law_ints(v: Seq<usize>)
    ensures
        ints(v).len() == v.len(),
        forall|i: int| 0 <= i < v.len() ==> #[trigger] ints(v)[i] == v[i],
{
}

/// An order puts larger keys first and leaves equal ones as they stood.
pub proof fn law_order_is_descending(keys: Seq<i64>, r: Seq<int>, i: int, j: int)
    requires
        is_order(keys, r),
        0 <= i < j < r.len(),
    ensures
        keys[r[i]] >= keys[r[j]],
        keys[r[i]] == keys[r[j]] ==> r[i] < r[j],
        r.len() == keys.len(),
{
    assert(precedes(keys, r[i], r[j]));
}

} // verus!
