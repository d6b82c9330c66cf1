//! Sorting by keys, largest first, equal keys in their old order.

use vstd::prelude::*;
use vstd::set_lib::{lemma_int_range, lemma_subset_equality, set_int_range};

verus! {

/// Whether the item `x` comes before the item `y`: its key is larger, or as large and `x` came
/// first.
pub open spec fn precedes(keys: Seq<i64>, x: int, y: int) -> bool {
    keys[x] > keys[y] || keys[x] == keys[y] && x < y
}

/// Whether `r` lists the items by their keys, largest first, equal keys in their old order.
pub open spec fn is_order(keys: Seq<i64>, r: Seq<int>) -> bool {
    &&& r.len() == keys.len()
    &&& forall|i: int| 0 <= i < r.len() ==> 0 <= #[trigger] r[i] < keys.len()
    &&& forall|i: int, j: int| 0 <= i < j < r.len() ==> precedes(keys, #[trigger] r[i], #[trigger] r[j])
}

/// The items by their keys, largest first, equal keys in their old order.
pub open spec fn order(keys: Seq<i64>) -> Seq<int> {
    choose|r: Seq<int>| is_order(keys, r)
}

/// Positions as mathematical integers.
pub open spec fn ints(v: Seq<usize>) -> Seq<int> {
    Seq::new(v.len(), |i: int| v[i] as int)
}

/// An order lists every item exactly once.
pub proof fn law_order_lists_all(keys: Seq<i64>, r: Seq<int>)
    requires
        is_order(keys, r),
    ensures
        r.no_duplicates(),
        forall|x: int| 0 <= x < keys.len() ==> r.contains(x),
{
    assert(r.no_duplicates());
    r.unique_seq_to_set();
    let n = keys.len() as int;
    lemma_int_range(0, n);
    assert(r.to_set().subset_of(set_int_range(0, n)));
    lemma_subset_equality(r.to_set(), set_int_range(0, n));
    assert forall|x: int| 0 <= x < n implies r.contains(x) by {
        assert(set_int_range(0, n).contains(x));
        assert(r.to_set().contains(x));
    }
}

/// There is one order only.
pub proof fn law_order_is_unique(keys: Seq<i64>, a: Seq<int>, b: Seq<int>)
    requires
        is_order(keys, a),
        is_order(keys, b),
    ensures
        a == b,
{
    law_order_lists_all(keys, a);
    law_order_lists_all(keys, b);
    assert forall|i: int| 0 <= i < a.len() implies a[i] == b[i] by {
        lemma_same_up_to(keys, a, b, i);
    }
    assert(a =~= b);
}

proof fn lemma_same_up_to(keys: Seq<i64>, a: Seq<int>, b: Seq<int>, i: int)
    requires
        is_order(keys, a),
        is_order(keys, b),
        a.no_duplicates(),
        b.no_duplicates(),
        forall|x: int| 0 <= x < keys.len() ==> a.contains(x),
        forall|x: int| 0 <= x < keys.len() ==> b.contains(x),
        0 <= i < a.len(),
    ensures
        a[i] == b[i],
    decreases i,
{
    assert forall|k: int| 0 <= k < i implies a[k] == b[k] by {
        lemma_same_up_to(keys, a, b, k);
    }
    let x = a[i];
    let y = b[i];
    assert(b.contains(x) && a.contains(y));
    let p = choose|p: int| 0 <= p < b.len() && b[p] == x;
    let q = choose|q: int| 0 <= q < a.len() && a[q] == y;
    if p < i {
        assert(a[p] == b[p]);
    }
    if q < i {
        assert(a[q] == b[q]);
    }
    if x != y {
        assert(precedes(keys, b[i], b[p]));
        assert(precedes(keys, a[i], a[q]));
    }
}

/// There always is an order.
pub proof fn lemma_order_exists(keys: Seq<i64>)
    ensures
        is_order(keys, order(keys)),
    decreases keys.len(),
{
    let r = sorted_positions(keys);
    lemma_sorted_positions(keys);
    assert(is_order(keys, r));
}

/// The position in `r` at which the last item of `keys` belongs.
spec fn slot(keys: Seq<i64>, r: Seq<int>, p: int) -> int
    decreases p,
{
    if p > 0 && keys[r[p - 1]] < keys.last() {
        slot(keys, r, p - 1)
    } else {
        p
    }
}

spec fn sorted_positions(keys: Seq<i64>) -> Seq<int>
    decreases keys.len(),
{
    if keys.len() == 0 {
        Seq::empty()
    } else {
        let r = sorted_positions(keys.drop_last());
        r.insert(slot(keys, r, r.len() as int), keys.len() - 1)
    }
}

proof fn lemma_slot(keys: Seq<i64>, r: Seq<int>, p: int)
    requires
        0 <= p <= r.len(),
    ensures
        0 <= slot(keys, r, p) <= p,
        forall|a: int| slot(keys, r, p) <= a < p ==> keys[#[trigger] r[a]] < keys.last(),
        slot(keys, r, p) > 0 ==> keys[r[slot(keys, r, p) - 1]] >= keys.last(),
    decreases p,
{
    if p > 0 && keys[r[p - 1]] < keys.last() {
        lemma_slot(keys, r, p - 1);
    }
}

proof fn lemma_sorted_positions(keys: Seq<i64>)
    ensures
        is_order(keys, sorted_positions(keys)),
    decreases keys.len(),
{
    if keys.len() > 0 {
        let less = keys.drop_last();
        lemma_sorted_positions(less);
        let r = sorted_positions(less);
        let n = keys.len() - 1;
        let p = slot(keys, r, n);
        lemma_slot(keys, r, n);
        let new = r.insert(p, n);
        assert forall|a: int, b: int| 0 <= a < b < new.len() implies precedes(
            keys,
            #[trigger] new[a],
            #[trigger] new[b],
        ) by {
            let oa = if a < p { a } else { a - 1 };
            let ob = if b < p { b } else { b - 1 };
            if a == p {
                assert(new[b] == r[ob]);
            } else if b == p {
                assert(new[a] == r[a]);
                if a < p - 1 {
                    assert(precedes(less, r[a], r[p - 1]));
                }
            } else {
                assert(new[a] == r[oa] && new[b] == r[ob]);
                assert(precedes(less, r[oa], r[ob]));
            }
        }
    }
}

/// The items by their keys, largest first, equal keys in their old order.
pub fn order_by(keys: &Vec<i64>) -> (r: Vec<usize>)
    ensures
        is_order(keys@, ints(r@)),
        ints(r@) == order(keys@),
{
    let mut out: Vec<usize> = Vec::new();
    let mut i: usize = 0;
    while i < keys.len()
        invariant
            i <= keys@.len(),
            ints(out@) =~= sorted_positions(keys@.take(i as int)),
        decreases keys@.len() - i,
    {
        let ghost part = keys@.take(i + 1);
        let ghost before = ints(out@);
        proof {
            assert(part.drop_last() =~= keys@.take(i as int));
            lemma_sorted_positions(keys@.take(i as int));
        }
        let mut p: usize = i;
        while p > 0 && keys[out[p - 1]] < keys[i]
            invariant
                p <= i < keys@.len(),
                part == keys@.take(i + 1),
                before == ints(out@),
                out@.len() == i,
                forall|a: int| 0 <= a < i ==> 0 <= #[trigger] before[a] < i,
                slot(part, before, i as int) == slot(part, before, p as int),
                p > 0 ==> before[p - 1] == out@[p - 1],
            decreases p,
        {
            p = p - 1;
        }
        out.insert(p, i);
        proof {
            assert(ints(out@) =~= before.insert(p as int, i as int));
        }
        i = i + 1;
    }
    proof {
        assert(keys@.take(keys@.len() as int) =~= keys@);
        lemma_sorted_positions(keys@);
        law_order_is_unique(keys@, ints(out@), order(keys@));
    }
    out
}

} // verus!
