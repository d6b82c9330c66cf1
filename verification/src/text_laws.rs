//! What the operations on text are for, over all texts.

use vstd::prelude::*;
use crate::text::{
    alphanumeric, at, before, clipped, digits, first_at, has, is_first_at, is_word, joined,
    lemma_run, occurrences, run, texts, trimmed, white, words, Part,
};

verus! {

/// A text occurs in another exactly where the other, from some place on, begins with it.
pub proof fn law_has(s: Seq<char>, pat: Seq<char>)
    ensures
        has(s, pat) <==> exists|i: int|
            0 <= i && i + pat.len() <= s.len() && (#[trigger] s.skip(i)).take(pat.len() as int) == pat,
{
    if has(s, pat) {
        let i = choose|i: int| at(s, pat, i);
        assert(s.skip(i).take(pat.len() as int) =~= s.subrange(i, i + pat.len()));
    }
    if exists|i: int|
        0 <= i && i + pat.len() <= s.len() && (#[trigger] s.skip(i)).take(pat.len() as int) == pat {
        let i = choose|i: int|
            0 <= i && i + pat.len() <= s.len() && (#[trigger] s.skip(i)).take(pat.len() as int)
                == pat;
        assert(s.skip(i).take(pat.len() as int) =~= s.subrange(i, i + pat.len()));
        assert(at(s, pat, i));
    }
}

/// Whether `pat` stands behind `head` in a text and nowhere before that.
pub open spec fn is_first_split(
    s: Seq<char>,
    head: Seq<char>,
    pat: Seq<char>,
    tail: Seq<char>,
) -> bool {
    &&& s == head + pat + tail
    &&& forall|i: int| 0 <= i < head.len() ==> (#[trigger] s.skip(i)).take(pat.len() as int) != pat
}

/// What stands before the first occurrence is what stands before it; a text without an occurrence
/// stands before it as a whole.
pub proof fn law_before(s: Seq<char>, head: Seq<char>, pat: Seq<char>, tail: Seq<char>)
    ensures
        is_first_split(s, head, pat, tail) ==> before(s, pat) == head,
        (forall|i: int|
            0 <= i && i + pat.len() <= s.len() ==> (#[trigger] s.skip(i)).take(pat.len() as int)
                != pat) ==> before(s, pat) == s,
{
    law_has(s, pat);
    if is_first_split(s, head, pat, tail) {
        let n = head.len() as int;
        assert(s.subrange(n, n + pat.len()) =~= pat);
        assert(at(s, pat, n));
        assert forall|j: int| 0 <= j < n implies !at(s, pat, j) by {
            if at(s, pat, j) {
                assert(s.skip(j).take(pat.len() as int) =~= s.subrange(j, j + pat.len()));
            }
        }
        assert(is_first_at(s, pat, 0, Some(n)));
        let k = first_at(s, pat);
        assert(is_first_at(s, pat, 0, Some(k)));
        if k < n {
            assert(!at(s, pat, k));
        } else if n < k {
            assert(!at(s, pat, n));
        }
        assert(s.take(n) =~= head);
    }
}

/// Occurrences are counted from the left: behind the first one, counting starts anew.
pub proof fn law_occurrences(s: Seq<char>, head: Seq<char>, pat: Seq<char>, tail: Seq<char>)
    ensures
        pat.len() > 0 && is_first_split(s, head, pat, tail) ==> occurrences(s, pat) == 1
            + occurrences(tail, pat),
        pat.len() > 0 && (forall|i: int|
            0 <= i && i + pat.len() <= s.len() ==> (#[trigger] s.skip(i)).take(pat.len() as int)
                != pat) ==> occurrences(s, pat) == 0,
        pat.len() == 0 ==> occurrences(s, pat) == s.len() + 1,
    decreases s.len(),
{
    let n = pat.len() as int;
    let never = forall|i: int|
        0 <= i && i + pat.len() <= s.len() ==> (#[trigger] s.skip(i)).take(n) != pat;
    if n > 0 && is_first_split(s, head, pat, tail) {
        if head.len() == 0 {
            assert(s.subrange(0, n) =~= pat);
            assert(at(s, pat, 0));
            assert(s.skip(n) =~= tail);
        } else {
            assert(s.skip(0).take(n) != pat);
            assert(s.skip(0).take(n) =~= s.subrange(0, n));
            assert(!at(s, pat, 0));
            let rest = s.skip(1);
            let h = head.skip(1);
            assert(rest =~= h + pat + tail);
            assert forall|i: int| 0 <= i < h.len() implies (#[trigger] rest.skip(i)).take(n) != pat by {
                assert(s.skip(i + 1) =~= rest.skip(i));
                assert(s.skip(i + 1).take(n) != pat);
            }
            law_occurrences(rest, h, pat, tail);
        }
    }
    if n > 0 && never && s.len() >= n {
        assert(s.skip(0).take(n) != pat);
        assert(s.skip(0).take(n) =~= s.subrange(0, n));
        let rest = s.skip(1);
        assert forall|i: int| 0 <= i && i + n <= rest.len() implies (#[trigger] rest.skip(i)).take(n)
            != pat by {
            assert(s.skip(i + 1) =~= rest.skip(i));
            assert(s.skip(i + 1).take(n) != pat);
        }
        law_occurrences(rest, Seq::empty(), pat, Seq::empty());
    }
}

/// A clipped text is the start of the text: as long as allowed, or all of it.
pub proof fn law_clipped(s: Seq<char>, n: int)
    requires
        0 <= n,
    ensures
        clipped(s, n).len() == if s.len() < n {
            s.len() as int
        } else {
            n
        },
        forall|i: int| 0 <= i < clipped(s, n).len() ==> #[trigger] clipped(s, n)[i] == s[i],
{
}

/// Words are made of letters and numbers, or of whatever is not white space.
pub proof fn law_parts(c: char)
    ensures
        Part::Alphanumeric.takes(c) == alphanumeric(c),
        Part::Visible.takes(c) == !white(c),
{
}

proof fn lemma_run_before(a: Seq<char>, b: Seq<char>, part: Part)
    requires
        b.len() > 0,
        !part.takes(b[0]),
    ensures
        run(a + b, part) == run(a, part),
    decreases a.len(),
{
    if a.len() == 0 {
        assert(a + b =~= b);
    } else if part.takes(a[0]) {
        assert((a + b).skip(1) =~= a.skip(1) + b);
        lemma_run_before(a.skip(1), b, part);
    }
}

/// A character that no word takes sets words apart: the words of a text are those before it and
/// those behind it. A text of nothing but such characters as words take is one word, and the empty
/// text has none.
pub proof fn law_words(a: Seq<char>, sep: char, b: Seq<char>, part: Part)
    ensures
        !part.takes(sep) ==> words(a + seq![sep] + b, part) == words(a, part) + words(b, part),
        is_word(a, part) ==> words(a, part) == seq![a],
        a.len() == 0 ==> words(a, part).len() == 0,
    decreases a.len(),
{
    lemma_run(a, part);
    if is_word(a, part) {
        if run(a, part) < a.len() {
            assert(part.takes(a[run(a, part) as int]));
        }
        assert(a.take(a.len() as int) =~= a);
        assert(words(a.skip(a.len() as int), part) =~= Seq::empty());
        assert(words(a, part) =~= seq![a]);
    }
    if !part.takes(sep) {
        let tail = seq![sep] + b;
        let all = a + seq![sep] + b;
        assert(all =~= a + tail);
        lemma_run_before(a, tail, part);
        if a.len() == 0 {
            assert(all.skip(1) =~= b);
            assert(words(a, part) + words(b, part) =~= words(b, part));
        } else {
            let n = run(a, part) as int;
            if n == 0 {
                assert(all.skip(1) =~= a.skip(1) + seq![sep] + b);
                law_words(a.skip(1), sep, b, part);
            } else {
                assert(all.take(n) =~= a.take(n));
                assert(all.skip(n) =~= a.skip(n) + seq![sep] + b);
                law_words(a.skip(n), sep, b, part);
                let w = seq![a.take(n)];
                assert(w + (words(a.skip(n), part) + words(b, part)) =~= (w + words(
                    a.skip(n),
                    part,
                )) + words(b, part));
            }
        }
    }
}

/// A word is not empty, and words take each of its characters.
pub proof fn law_is_word(w: Seq<char>, part: Part)
    ensures
        is_word(w, part) <==> w.len() > 0 && forall|i: int|
            0 <= i < w.len() ==> part.takes(#[trigger] w[i]),
{
}

/// A list of strings stands for the list of their texts.
pub proof fn law_texts(v: Seq<String>)
    ensures
        texts(v).len() == v.len(),
        forall|i: int| 0 <= i < v.len() ==> #[trigger] texts(v)[i] == v[i]@,
{
}

/// Joining two lists joins each of them and sets them apart; a single text stays as it is, and
/// nothing gives nothing.
pub proof fn law_joined(a: Seq<Seq<char>>, b: Seq<Seq<char>>, sep: Seq<char>)
    ensures
        a.len() > 0 && b.len() > 0 ==> joined(a + b, sep) == joined(a, sep) + sep + joined(b, sep),
        a.len() == 1 ==> joined(a, sep) == a[0],
        a.len() == 0 ==> joined(a, sep).len() == 0,
    decreases b.len(),
{
    if a.len() > 0 && b.len() > 0 {
        let less = b.drop_last();
        assert((a + b).drop_last() =~= a + less);
        assert((a + b).last() == b.last());
        if less.len() == 0 {
            assert(a + less =~= a);
            assert(b =~= seq![b.last()]);
        } else {
            law_joined(a, less, sep);
            assert(joined(a + b, sep) =~= joined(a, sep) + sep + joined(b, sep));
        }
    }
}

proof fn lemma_all_white(s: Seq<char>)
    requires
        forall|i: int| 0 <= i < s.len() ==> white(#[trigger] s[i]),
    ensures
        trimmed(s).len() == 0,
    decreases s.len(),
{
    if s.len() > 0 {
        assert(white(s[0]));
        let rest = s.skip(1);
        assert forall|i: int| 0 <= i < rest.len() implies white(#[trigger] rest[i]) by {
            assert(white(s[i + 1]));
        }
        lemma_all_white(rest);
    }
}

/// Trimming takes the white space from both ends and nothing else.
pub proof fn law_trimmed(a: Seq<char>, m: Seq<char>, b: Seq<char>)
    requires
        forall|i: int| 0 <= i < a.len() ==> white(#[trigger] a[i]),
        forall|i: int| 0 <= i < b.len() ==> white(#[trigger] b[i]),
        m.len() > 0 ==> !white(m[0]) && !white(m[m.len() - 1]),
    ensures
        trimmed(a + m + b) == m,
    decreases a.len() + b.len(),
{
    let s = a + m + b;
    if m.len() == 0 {
        assert forall|i: int| 0 <= i < s.len() implies white(#[trigger] s[i]) by {
            if i < a.len() {
                assert(white(a[i]));
            } else {
                assert(white(b[i - a.len()]));
            }
        }
        lemma_all_white(s);
        assert(trimmed(s) =~= m);
    } else if a.len() > 0 {
        assert(white(a[0]));
        assert(s.skip(1) =~= a.skip(1) + m + b);
        assert forall|i: int| 0 <= i < a.skip(1).len() implies white(#[trigger] a.skip(1)[i]) by {
            assert(white(a[i + 1]));
        }
        law_trimmed(a.skip(1), m, b);
    } else if b.len() > 0 {
        assert(s[0] == m[0]);
        assert(white(b[b.len() - 1]));
        assert(s.last() == b.last());
        assert(s.drop_last() =~= a + m + b.drop_last());
        assert forall|i: int| 0 <= i < b.drop_last().len() implies white(
            #[trigger] b.drop_last()[i],
        ) by {
            assert(white(b[i]));
        }
        law_trimmed(a, m, b.drop_last());
    } else {
        assert(s =~= m);
    }
}

/// The digits of a number: one for each power of ten, the last for the ones.
pub proof fn law_digits(n: nat, d: nat)
    requires
        d < 10,
    ensures
        digits(d) == seq![(0x30 + d) as char],
        n > 0 ==> digits(n * 10 + d) == digits(n).push((0x30 + d) as char),
{
    assert(n > 0 ==> (n * 10 + d) / 10 == n && (n * 10 + d) % 10 == d);
    assert(digits(d) =~= seq![(0x30 + d) as char]);
}

} // verus!
