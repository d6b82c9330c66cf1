//! The ranking: candidates by their scores, with hosts alternating.

use vstd::prelude::*;
use crate::order::{
    ints, is_order, law_order_lists_all, lemma_order_exists, order, order_by, precedes,
};
use crate::research::{host, host_of};
use crate::text::same;

verus! {

/// The key by which a 64-bit floating-point number with these bits is ordered: of two numbers the
/// one that comes later in the total order has the larger key.
pub open spec fn key_of(bits: u64) -> int {
    if bits < 0x8000_0000_0000_0000 {
        bits as int
    } else {
        0x7FFF_FFFF_FFFF_FFFF - bits
    }
}

/// The key by which a 64-bit floating-point number with these bits is ordered.
pub fn order_key(bits: u64) -> (r: i64)
    ensures
        r == key_of(bits),
{
    if bits < 0x8000_0000_0000_0000 {
        bits as i64
    } else {
        -1 - (bits - 0x8000_0000_0000_0000) as i64
    }
}

/// Keys order as numbers do, by sign and size: the top bit of a number is its sign, and the other
/// bits grow with its size. Every key stands for one number only.
pub proof fn law_keys_order_like_numbers(a: u64, b: u64)
    ensures
        a >= 0x8000_0000_0000_0000 > b ==> key_of(a) < key_of(b),
        a < b < 0x8000_0000_0000_0000 ==> key_of(a) < key_of(b),
        0x8000_0000_0000_0000 <= a < b ==> key_of(b) < key_of(a),
        key_of(a) == key_of(b) ==> a == b,
{
}

/// A candidate as it enters the ranking: its address, and the keys by which its score is ordered
/// (the larger key is the better score): as the score stands, and with the penalty for one or for
/// two neighbours of the same host.
#[derive(Debug, Clone)]
pub struct Scored {
    pub url: String,
    pub alone: i64,
    pub once: i64,
    pub twice: i64,
}

/// A place in the ranking: which candidate has it, and for how many neighbours of the same host
/// its score was reduced.
#[derive(Debug, Clone, Copy, PartialEq, Eq, Structural)]
pub struct Placed {
    pub index: usize,
    pub repeats: u8,
}

/// The keys of the scores as they stand.
pub open spec fn alone_keys(items: Seq<Scored>) -> Seq<i64> {
    Seq::new(items.len(), |i: int| items[i].alone)
}

/// The order of the candidates before hosts are looked at: the best score first.
pub open spec fn first_order(items: Seq<Scored>) -> Seq<int> {
    order(alone_keys(items))
}

/// The host of the candidate at place `k` of that order.
pub open spec fn host_at(items: Seq<Scored>, k: int) -> Seq<char> {
    host(items[first_order(items)[k]].url@)
}

/// How many of the two candidates just before place `k` of that order have the same host.
pub open spec fn repeats_at(items: Seq<Scored>, k: int) -> nat {
    (if k >= 1 && host_at(items, k - 1) == host_at(items, k) {
        1nat
    } else {
        0
    }) + (if k >= 2 && host_at(items, k - 2) == host_at(items, k) {
        1nat
    } else {
        0
    })
}

/// The key of a candidate's score after the penalty for so many neighbours of the same host.
pub open spec fn key_after(item: Scored, repeats: nat) -> i64 {
    if repeats == 0 {
        item.alone
    } else if repeats == 1 {
        item.once
    } else {
        item.twice
    }
}

/// The keys after the penalties, by places of the first order.
pub open spec fn final_keys(items: Seq<Scored>) -> Seq<i64> {
    Seq::new(
        items.len(),
        |k: int| key_after(items[first_order(items)[k]], repeats_at(items, k)),
    )
}

/// The place of the first order that takes place `j` of the ranking.
pub open spec fn place_of(items: Seq<Scored>, j: int) -> int {
    order(final_keys(items))[j]
}

/// The ranking: candidates by their scores after the penalties, the best first, equal scores as
/// they stood before.
pub open spec fn ranking(items: Seq<Scored>) -> Seq<(int, nat)> {
    Seq::new(
        items.len(),
        |j: int|
            (first_order(items)[place_of(items, j)], repeats_at(items, place_of(items, j))),
    )
}

/// Places by view.
pub open spec fn places(v: Seq<Placed>) -> Seq<(int, nat)> {
    Seq::new(v.len(), |i: int| (v[i].index as int, v[i].repeats as nat))
}

/// Ranks candidates by their scores, the best first. A candidate that stands right behind one or
/// two of the same host counts with its reduced score, so that hosts alternate.
pub fn rank(items: &Vec<Scored>) -> (r: Vec<Placed>)
    ensures
        places(r@) == ranking(items@),
        r@.len() == items@.len(),
        forall|i: int|
            0 <= i < r@.len() ==> (#[trigger] r@[i]).index < items@.len() && r@[i].repeats <= 2,
{
    let mut keys: Vec<i64> = Vec::new();
    let mut i: usize = 0;
    while i < items.len()
        invariant
            i <= items@.len(),
            keys@ =~= alone_keys(items@).take(i as int),
        decreases items@.len() - i,
    {
        keys.push(items[i].alone);
        i = i + 1;
    }
    proof {
        assert(keys@ =~= alone_keys(items@));
    }
    let first = order_by(&keys);
    let ghost fo = first_order(items@);
    let mut found: Vec<Placed> = Vec::new();
    let mut reduced: Vec<i64> = Vec::new();
    let mut k: usize = 0;
    while k < first.len()
        invariant
            k <= first@.len() == items@.len(),
            ints(first@) == fo,
            fo == first_order(items@),
            is_order(alone_keys(items@), fo),
            found@.len() == k,
            forall|a: int|
                0 <= a < k ==> (#[trigger] found@[a]).index == fo[a] && found@[a].repeats
                    == repeats_at(items@, a),
            reduced@ =~= final_keys(items@).take(k as int),
        decreases first@.len() - k,
    {
        proof {
            assert(fo[k as int] == first@[k as int]);
            assert(0 <= fo[k as int] < items@.len());
        }
        let index = first[k];
        let here = host_of(items[index].url.as_str());
        let mut repeats: u8 = 0;
        if k >= 1 {
            proof {
                assert(fo[k - 1] == first@[k - 1]);
            }
            if same(host_of(items[first[k - 1]].url.as_str()), here) {
                repeats = repeats + 1;
            }
        }
        if k >= 2 {
            proof {
                assert(fo[k - 2] == first@[k - 2]);
            }
            if same(host_of(items[first[k - 2]].url.as_str()), here) {
                repeats = repeats + 1;
            }
        }
        proof {
            assert(repeats == repeats_at(items@, k as int));
        }
        found.push(Placed { index, repeats });
        reduced.push(
            if repeats == 0 {
                items[index].alone
            } else if repeats == 1 {
                items[index].once
            } else {
                items[index].twice
            },
        );
        k = k + 1;
    }
    proof {
        assert(reduced@ =~= final_keys(items@));
    }
    let second = order_by(&reduced);
    let mut out: Vec<Placed> = Vec::new();
    let mut j: usize = 0;
    while j < second.len()
        invariant
            j <= second@.len() == items@.len(),
            found@.len() == items@.len(),
            ints(second@) == order(final_keys(items@)),
            is_order(final_keys(items@), ints(second@)),
            forall|a: int|
                0 <= a < found@.len() ==> (#[trigger] found@[a]).index == first_order(items@)[a]
                    && found@[a].repeats == repeats_at(items@, a),
            places(out@) =~= ranking(items@).take(j as int),
        decreases second@.len() - j,
    {
        proof {
            assert(ints(second@)[j as int] == second@[j as int]);
        }
        let ghost so_far = places(out@);
        out.push(found[second[j]]);
        proof {
            let k = place_of(items@, j as int);
            assert(found@[k].index == first_order(items@)[k]);
            assert(places(out@) =~= so_far.push(ranking(items@)[j as int]));
        }
        j = j + 1;
    }
    proof {
        assert(places(out@) =~= ranking(items@));
        lemma_orders(items@);
        assert forall|i: int| 0 <= i < out@.len() implies (#[trigger] out@[i]).index < items@.len()
            && out@[i].repeats <= 2 by {
            assert(places(out@)[i] == ranking(items@)[i]);
        }
    }
    out
}

/// The orders that make up a ranking exist.
pub proof fn lemma_orders(items: Seq<Scored>)
    ensures
        is_order(alone_keys(items), first_order(items)),
        is_order(final_keys(items), order(final_keys(items))),
{
    lemma_order_exists(alone_keys(items));
    lemma_order_exists(final_keys(items));
}

/// Every candidate has exactly one place in the ranking.
pub proof fn law_ranking_lists_all(items: Seq<Scored>)
    ensures
        ranking(items).len() == items.len(),
        forall|i: int| 0 <= i < items.len() ==> 0 <= (#[trigger] ranking(items)[i]).0 < items.len(),
        forall|i: int, j: int|
            0 <= i < j < items.len() ==> (#[trigger] ranking(items)[i]).0 != (
            #[trigger] ranking(items)[j]).0,
{
    lemma_orders(items);
    let first = first_order(items);
    let second = order(final_keys(items));
    law_order_lists_all(alone_keys(items), first);
    law_order_lists_all(final_keys(items), second);
}

/// No candidate stands behind one whose reduced score is smaller.
pub proof fn law_ranking_is_sorted(items: Seq<Scored>, i: int, j: int)
    requires
        0 <= i < j < items.len(),
    ensures
        key_after(items[ranking(items)[i].0], ranking(items)[i].1) >= key_after(
            items[ranking(items)[j].0],
            ranking(items)[j].1,
        ),
{
    lemma_orders(items);
    let second = order(final_keys(items));
    assert(precedes(final_keys(items), second[i], second[j]));
}

/// A candidate whose host no other candidate has keeps its score.
pub proof fn law_lone_hosts_keep_their_score(items: Seq<Scored>, j: int)
    requires
        0 <= j < items.len(),
        forall|i: int|
            0 <= i < items.len() && i != ranking(items)[j].0 ==> host(
                (#[trigger] items[i]).url@,
            ) != host(items[ranking(items)[j].0].url@),
    ensures
        ranking(items)[j].1 == 0,
{
    lemma_orders(items);
    let first = first_order(items);
    let k = place_of(items, j);
    law_order_lists_all(alone_keys(items), first);
    if k >= 1 {
        assert(first[k - 1] != first[k]);
        assert(host(items[first[k - 1]].url@) != host(items[first[k]].url@));
    }
    if k >= 2 {
        assert(first[k - 2] != first[k]);
        assert(host(items[first[k - 2]].url@) != host(items[first[k]].url@));
    }
}

/// The penalty only ever pushes down: where it never raises a score, a candidate that was not
/// reduced stays before every other whose score was smaller.
pub proof fn law_penalties_push_down(items: Seq<Scored>, a: int, b: int)
    requires
        forall|i: int|
            0 <= i < items.len() ==> (#[trigger] items[i]).twice <= items[i].once <= items[i].alone,
        0 <= a < items.len(),
        0 <= b < items.len(),
        ranking(items)[a].1 == 0,
        items[ranking(items)[a].0].alone > items[ranking(items)[b].0].alone,
    ensures
        a < b,
{
    law_ranking_lists_all(items);
    let x = items[ranking(items)[a].0];
    let y = items[ranking(items)[b].0];
    if b < a {
        law_ranking_is_sorted(items, b, a);
        assert(key_after(y, ranking(items)[b].1) <= y.alone);
        assert(key_after(x, ranking(items)[a].1) == x.alone);
    }
}

} // verus!
