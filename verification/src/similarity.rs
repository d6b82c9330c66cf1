//! Why the cosine between two texts lies between nought and one.

use vstd::prelude::*;
use crate::research::{pairs, times};

verus! {

/// A list without one text.
spec fn without(list: Seq<Seq<char>>, word: Seq<char>) -> Seq<Seq<char>>
    decreases list.len(),
{
    if list.len() == 0 {
        Seq::empty()
    } else if list.last() == word {
        without(list.drop_last(), word)
    } else {
        without(list.drop_last(), word).push(list.last())
    }
}

proof fn lemma_without(list: Seq<Seq<char>>, word: Seq<char>, other: Seq<char>)
    ensures
        times(without(list, word), other) == if other == word {
            0
        } else {
            times(list, other)
        },
        without(list, word).len() + times(list, word) == list.len(),
    decreases list.len(),
{
    if list.len() > 0 {
        lemma_without(list.drop_last(), word, other);
        if list.last() != word {
            let w = without(list.drop_last(), word);
            assert(w.push(list.last()).drop_last() =~= w);
        }
    }
}

proof fn lemma_pairs_split(a: Seq<Seq<char>>, b: Seq<Seq<char>>, word: Seq<char>)
    ensures
        pairs(a, b) == times(a, word) * times(b, word) + pairs(without(a, word), without(b, word)),
    decreases a.len(),
{
    if a.len() == 0 {
        assert(times(a, word) * times(b, word) == 0) by (nonlinear_arith)
            requires
                times(a, word) == 0,
        ;
    } else {
        let less = a.drop_last();
        lemma_pairs_split(less, b, word);
        let y = times(b, word);
        let x = times(less, word);
        if a.last() == word {
            assert((x + 1) * y == x * y + y) by (nonlinear_arith);
        } else {
            let w = without(less, word);
            assert(w.push(a.last()).drop_last() =~= w);
            lemma_without(b, word, a.last());
        }
    }
}

proof fn lemma_squares(x: int, y: int, s: int, a: int, b: int)
    requires
        0 <= x,
        0 <= y,
        0 <= s,
        0 <= a,
        0 <= b,
        s * s <= a * b,
    ensures
        (x * y + s) * (x * y + s) <= (x * x + a) * (y * y + b),
{
    let p = x * x * b;
    let q = y * y * a;
    let m = x * y * s;
    assert(p >= 0 && q >= 0 && m >= 0) by (nonlinear_arith)
        requires
            p == x * x * b,
            q == y * y * a,
            m == x * y * s,
            0 <= x,
            0 <= y,
            0 <= s,
            0 <= a,
            0 <= b,
    ;
    assert(p * q == (x * y) * (x * y) * (a * b)) by (nonlinear_arith)
        requires
            p == x * x * b,
            q == y * y * a,
    ;
    assert(m * m == (x * y) * (x * y) * (s * s)) by (nonlinear_arith)
        requires
            m == x * y * s,
    ;
    let k = (x * y) * (x * y);
    assert(k >= 0) by (nonlinear_arith)
        requires
            k == (x * y) * (x * y),
    ;
    assert(k * (s * s) <= k * (a * b)) by (nonlinear_arith)
        requires
            k >= 0,
            s * s <= a * b,
    ;
    assert(m * m <= p * q);
    assert((p + q) * (p + q) >= 4 * (p * q)) by (nonlinear_arith);
    assert(2 * m <= p + q) by (nonlinear_arith)
        requires
            m * m <= p * q,
            (p + q) * (p + q) >= 4 * (p * q),
            m >= 0,
            p >= 0,
            q >= 0,
    ;
    assert((x * y + s) * (x * y + s) == k + 2 * m + s * s) by (nonlinear_arith)
        requires
            k == (x * y) * (x * y),
            m == x * y * s,
    ;
    assert((x * x + a) * (y * y + b) == k + p + q + a * b) by (nonlinear_arith)
        requires
            k == (x * y) * (x * y),
            p == x * x * b,
            q == y * y * a,
    ;
}

/// The square of the inner product of two lists is at most the product of their squared lengths:
/// no cosine is larger than one.
pub proof fn law_cosine_at_most_one(a: Seq<Seq<char>>, b: Seq<Seq<char>>)
    ensures
        pairs(a, b) * pairs(a, b) <= pairs(a, a) * pairs(b, b),
    decreases a.len(),
{
    if a.len() == 0 {
        assert(pairs(a, b) * pairs(a, b) <= pairs(a, a) * pairs(b, b)) by (nonlinear_arith)
            requires
                pairs(a, b) == 0,
                pairs(a, a) >= 0,
                pairs(b, b) >= 0,
        ;
    } else {
        let w = a.last();
        lemma_without(a, w, w);
        law_cosine_at_most_one(without(a, w), without(b, w));
        lemma_pairs_split(a, b, w);
        lemma_pairs_split(a, a, w);
        lemma_pairs_split(b, b, w);
        lemma_squares(
            times(a, w) as int,
            times(b, w) as int,
            pairs(without(a, w), without(b, w)) as int,
            pairs(without(a, w), without(a, w)) as int,
            pairs(without(b, w), without(b, w)) as int,
        );
    }
}

proof fn lemma_pairs_push(a: Seq<Seq<char>>, b: Seq<Seq<char>>, x: Seq<char>)
    ensures
        pairs(a, b.push(x)) == pairs(a, b) + times(a, x),
    decreases a.len(),
{
    if a.len() > 0 {
        lemma_pairs_push(a.drop_last(), b, x);
        assert(b.push(x).drop_last() =~= b);
    }
}

/// The inner product does not depend on which list comes first.
pub proof fn law_cosine_is_symmetric(a: Seq<Seq<char>>, b: Seq<Seq<char>>)
    ensures
        pairs(a, b) == pairs(b, a),
    decreases a.len(),
{
    if a.len() == 0 {
        lemma_pairs_with_nothing(b, a);
    } else {
        let less = a.drop_last();
        law_cosine_is_symmetric(less, b);
        lemma_pairs_push(b, less, a.last());
        assert(less.push(a.last()) =~= a);
    }
}

/// Nothing pairs with a list without items.
pub proof fn lemma_pairs_with_nothing(a: Seq<Seq<char>>, b: Seq<Seq<char>>)
    requires
        b.len() == 0,
    ensures
        pairs(a, b) == 0,
    decreases a.len(),
{
    if a.len() > 0 {
        lemma_pairs_with_nothing(a.drop_last(), b);
    }
}

/// A list with items has a length: the cosine between two such lists is never a division by
/// nought.
pub proof fn law_length_is_positive(a: Seq<Seq<char>>)
    requires
        a.len() > 0,
    ensures
        pairs(a, a) > 0,
{
    let w = a.last();
    lemma_pairs_split(a, a, w);
    assert(times(a, w) >= 1);
    assert(times(a, w) * times(a, w) >= 1) by (nonlinear_arith)
        requires
            times(a, w) >= 1,
    ;
}

} // verus!
