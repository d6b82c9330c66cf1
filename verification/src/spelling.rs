//! What holds of every query and every text, however they are spelt.

use vstd::prelude::*;
use crate::research::{
    covered, dotless, is_exact, is_handle, is_surname, letters, long_ones, normalized, plain,
    plain_terms, squeezed, tokens, turkish_lower, Candidate,
};
use crate::text::{
    alphanumeric, ascii, ascii_lower, at, has, is_ascii, is_word, joined, lemma_run,
    lemma_some_word, lemma_words, lowered, occurrences, run, words, Part,
};
use crate::text_laws::law_words;

verus! {

/// Every term is a word of more than two letters or numbers.
pub proof fn law_terms_are_words(s: Seq<char>)
    ensures
        forall|i: int|
            0 <= i < tokens(s).len() ==> (#[trigger] tokens(s)[i]).len() > 2 && is_word(
                tokens(s)[i],
                Part::Alphanumeric,
            ),
{
    let ws = words(turkish_lower(s), Part::Alphanumeric);
    lemma_words(turkish_lower(s), Part::Alphanumeric);
    lemma_long_ones(ws);
    assert forall|i: int| 0 <= i < tokens(s).len() implies (#[trigger] tokens(s)[i]).len() > 2
        && is_word(tokens(s)[i], Part::Alphanumeric) by {
        let w = tokens(s)[i];
        assert(ws.contains(w));
        let k = choose|k: int| 0 <= k < ws.len() && ws[k] == w;
        assert(is_word(ws[k], Part::Alphanumeric));
    }
}

proof fn lemma_long_ones(ws: Seq<Seq<char>>)
    ensures
        forall|i: int| 0 <= i < long_ones(ws).len() ==> (#[trigger] long_ones(ws)[i]).len() > 2,
        forall|i: int| 0 <= i < long_ones(ws).len() ==> ws.contains(#[trigger] long_ones(ws)[i]),
    decreases ws.len(),
{
    if ws.len() > 0 {
        let less = ws.drop_last();
        lemma_long_ones(less);
        assert forall|i: int| 0 <= i < long_ones(ws).len() implies ws.contains(
            #[trigger] long_ones(ws)[i],
        ) by {
            let w = long_ones(ws)[i];
            if i < long_ones(less).len() {
                assert(less.contains(long_ones(less)[i]));
                let k = choose|k: int| 0 <= k < less.len() && less[k] == w;
                assert(ws[k] == w);
            } else {
                assert(ws[ws.len() - 1] == w);
            }
        }
    }
}

/// Whether a text is made of words with one blank between neighbours.
pub open spec fn evenly_spaced(s: Seq<char>) -> bool {
    &&& s.len() > 0 ==> alphanumeric(s[0]) && alphanumeric(s.last())
    &&& forall|i: int| 0 <= i < s.len() ==> alphanumeric(#[trigger] s[i]) || s[i] == ' '
    &&& forall|i: int|
        0 < i < s.len() ==> alphanumeric(#[trigger] s[i]) || alphanumeric(s[i - 1])
}

/// A normalized text starts and ends with a letter or a number, and has one blank between words.
pub proof fn law_normalized_is_evenly_spaced(s: Seq<char>)
    ensures
        evenly_spaced(normalized(s)),
{
    lemma_words(lowered(s), Part::Alphanumeric);
    lemma_joined_evenly(words(lowered(s), Part::Alphanumeric));
}

/// Two evenly spaced texts with a blank between them are evenly spaced.
proof fn lemma_evenly_spaced(a: Seq<char>, w: Seq<char>)
    requires
        evenly_spaced(a),
        a.len() > 0,
        evenly_spaced(w),
        w.len() > 0,
    ensures
        evenly_spaced(a + " "@ + w),
{
    reveal_strlit(" ");
    let r = a + " "@ + w;
    let n = a.len() as int;
    assert(r.len() == n + 1 + w.len());
    assert forall|i: int| 0 <= i < r.len() implies alphanumeric(#[trigger] r[i]) || r[i] == ' ' by {
        if i < n {
            assert(r[i] == a[i]);
        } else if i > n {
            assert(r[i] == w[i - n - 1]);
        }
    }
    assert forall|i: int| 0 < i < r.len() implies alphanumeric(#[trigger] r[i]) || alphanumeric(
        r[i - 1],
    ) by {
        if i < n {
            assert(r[i] == a[i] && r[i - 1] == a[i - 1]);
        } else if i == n {
            assert(r[i - 1] == a.last());
        } else if i == n + 1 {
            assert(r[i] == w[0]);
        } else {
            assert(r[i] == w[i - n - 1] && r[i - 1] == w[i - n - 2]);
        }
    }
    assert(r[0] == a[0]);
    assert(r.last() == w.last());
}

proof fn lemma_joined_evenly(ws: Seq<Seq<char>>)
    requires
        forall|i: int| 0 <= i < ws.len() ==> is_word(#[trigger] ws[i], Part::Alphanumeric),
    ensures
        evenly_spaced(joined(ws, " "@)),
        ws.len() > 0 ==> joined(ws, " "@).len() > 0,
    decreases ws.len(),
{
    if ws.len() > 0 {
        let w = ws.last();
        assert(is_word(ws[ws.len() - 1], Part::Alphanumeric));
        assert(evenly_spaced(w)) by {
            assert forall|j: int| 0 <= j < w.len() implies alphanumeric(#[trigger] w[j]) by {
                assert(Part::Alphanumeric.takes(w[j]));
            }
        }
        if ws.len() > 1 {
            let less = ws.drop_last();
            assert forall|i: int| 0 <= i < less.len() implies is_word(
                #[trigger] less[i],
                Part::Alphanumeric,
            ) by {
                assert(is_word(ws[i], Part::Alphanumeric));
            }
            lemma_joined_evenly(less);
            lemma_evenly_spaced(joined(less, " "@), w);
        }
    }
}

proof fn lemma_letters(s: Seq<char>)
    requires
        letters(s).len() > 0,
    ensures
        exists|i: int| 0 <= i < s.len() && alphanumeric(#[trigger] s[i]),
    decreases s.len(),
{
    if alphanumeric(s.last()) {
        assert(alphanumeric(s[s.len() - 1]));
    } else {
        let less = s.drop_last();
        lemma_letters(less);
        let i = choose|i: int| 0 <= i < less.len() && alphanumeric(#[trigger] less[i]);
        assert(alphanumeric(s[i]));
    }
}

/// A candidate that carries the query as a user name matches the whole query.
pub proof fn law_handle_is_exact(query: Seq<char>, c: Candidate)
    requires
        is_handle(query, c),
    ensures
        is_exact(query, c),
{
    let s = lowered(query);
    lemma_letters(s);
    lemma_words(s, Part::Alphanumeric);
    let i = choose|i: int| 0 <= i < s.len() && alphanumeric(#[trigger] s[i]);
    lemma_some_word(s, Part::Alphanumeric, i);
    lemma_joined_evenly(words(s, Part::Alphanumeric));
}

/// A text without a capital I has one lower case only, the Turkish one.
pub proof fn law_one_reading_without_capital_i(s: Seq<char>)
    requires
        !s.contains('I'),
    ensures
        turkish_lower(s) == lowered(s),
{
    assert forall|i: int| 0 <= i < s.len() implies dotless(#[trigger] s[i]) == s[i] by {
        assert(s.contains(s[i]));
    }
    assert(Seq::new(s.len(), |i: int| dotless(s[i])) =~= s);
}

/// Words that are joined by blanks are found again.
proof fn lemma_words_of_joined(ws: Seq<Seq<char>>)
    requires
        forall|i: int| 0 <= i < ws.len() ==> is_word(#[trigger] ws[i], Part::Alphanumeric),
    ensures
        words(joined(ws, " "@), Part::Alphanumeric) == ws,
    decreases ws.len(),
{
    reveal_strlit(" ");
    if ws.len() == 0 {
        assert(words(joined(ws, " "@), Part::Alphanumeric) =~= ws);
    } else {
        let w = ws.last();
        assert(is_word(ws[ws.len() - 1], Part::Alphanumeric));
        law_words(w, ' ', w, Part::Alphanumeric);
        if ws.len() == 1 {
            assert(ws =~= seq![w]);
        } else {
            let less = ws.drop_last();
            assert forall|i: int| 0 <= i < less.len() implies is_word(
                #[trigger] less[i],
                Part::Alphanumeric,
            ) by {
                assert(is_word(ws[i], Part::Alphanumeric));
            }
            lemma_words_of_joined(less);
            assert(" "@ =~= seq![' ']);
            law_words(joined(less, " "@), ' ', w, Part::Alphanumeric);
            assert(less + seq![w] =~= ws);
        }
    }
}

/// A normalized text has the words of the text in lower case, with one blank between neighbours.
pub proof fn law_normalizing_keeps_the_words(s: Seq<char>)
    ensures
        words(normalized(s), Part::Alphanumeric) == words(lowered(s), Part::Alphanumeric),
        normalized(s) == joined(words(normalized(s), Part::Alphanumeric), " "@),
{
    lemma_words(lowered(s), Part::Alphanumeric);
    lemma_words_of_joined(words(lowered(s), Part::Alphanumeric));
}

/// The terms in plain lower case are the words of the normalized text that have more than two
/// characters, in their order and as often as they stand there. Without a capital I the terms are
/// the same, and those of an ASCII text have no capitals.
pub proof fn law_terms_are_normalized_words(q: Seq<char>)
    ensures
        plain_terms(q) == long_ones(words(normalized(q), Part::Alphanumeric)),
        !q.contains('I') ==> tokens(q) == plain_terms(q),
        is_ascii(q) ==> forall|i: int|
            0 <= i < plain_terms(q).len() ==> is_small(#[trigger] plain_terms(q)[i]),
{
    law_normalizing_keeps_the_words(q);
    if !q.contains('I') {
        law_one_reading_without_capital_i(q);
    }
    if is_ascii(q) {
        let ws = words(lowered(q), Part::Alphanumeric);
        let terms = plain_terms(q);
        lemma_small(q);
        lemma_small_words(lowered(q), Part::Alphanumeric);
        lemma_long_ones(ws);
        assert forall|i: int| 0 <= i < terms.len() implies is_small(#[trigger] terms[i]) by {
            assert(ws.contains(terms[i]));
            let k = choose|k: int| 0 <= k < ws.len() && ws[k] == terms[i];
            assert(is_small(ws[k]));
        }
    }
}

proof fn lemma_no_words(s: Seq<char>, part: Part)
    requires
        forall|i: int| 0 <= i < s.len() ==> !part.takes(#[trigger] s[i]),
    ensures
        words(s, part).len() == 0,
    decreases s.len(),
{
    if s.len() > 0 {
        assert(!part.takes(s[0]));
        let rest = s.skip(1);
        assert forall|i: int| 0 <= i < rest.len() implies !part.takes(#[trigger] rest[i]) by {
            assert(!part.takes(s[i + 1]));
        }
        lemma_no_words(rest, part);
    }
}

/// A normalized text is empty exactly where the text in lower case has neither letter nor number.
pub proof fn law_normalized_is_empty_without_letters(s: Seq<char>)
    ensures
        normalized(s).len() == 0 <==> forall|i: int|
            0 <= i < lowered(s).len() ==> !alphanumeric(#[trigger] lowered(s)[i]),
{
    let t = lowered(s);
    let ws = words(t, Part::Alphanumeric);
    lemma_words(t, Part::Alphanumeric);
    lemma_joined_evenly(ws);
    if forall|i: int| 0 <= i < t.len() ==> !alphanumeric(#[trigger] t[i]) {
        assert forall|i: int| 0 <= i < t.len() implies !Part::Alphanumeric.takes(#[trigger] t[i]) by {
            assert(!alphanumeric(t[i]));
        }
        lemma_no_words(t, Part::Alphanumeric);
    } else {
        let i = choose|i: int| 0 <= i < t.len() && alphanumeric(#[trigger] t[i]);
        lemma_some_word(t, Part::Alphanumeric, i);
    }
}

/// Whether a text is an ASCII text without capitals.
pub open spec fn is_small(s: Seq<char>) -> bool {
    forall|i: int| 0 <= i < s.len() ==> ascii(#[trigger] s[i]) && ascii_lower(s[i]) == s[i]
}

proof fn lemma_small(s: Seq<char>)
    ensures
        is_ascii(s) ==> is_small(lowered(s)),
        is_small(s) ==> lowered(s) == s,
{
    if is_ascii(s) {
        assert forall|i: int| 0 <= i < lowered(s).len() implies ascii(#[trigger] lowered(s)[i])
            && ascii_lower(lowered(s)[i]) == lowered(s)[i] by {
            assert(ascii(s[i]));
        }
    }
    if is_small(s) {
        assert(is_ascii(s));
        assert(lowered(s) =~= s);
    }
}

proof fn lemma_small_words(s: Seq<char>, part: Part)
    requires
        is_small(s),
    ensures
        forall|i: int| 0 <= i < words(s, part).len() ==> is_small(#[trigger] words(s, part)[i]),
    decreases s.len(),
{
    if s.len() > 0 {
        let n = run(s, part) as int;
        lemma_run(s, part);
        if n == 0 {
            lemma_small_words(s.skip(1), part);
            assert(words(s, part) == words(s.skip(1), part));
        } else {
            lemma_small_words(s.skip(n), part);
            let rest = words(s.skip(n), part);
            let all = words(s, part);
            assert forall|i: int| 0 <= i < all.len() implies is_small(#[trigger] all[i]) by {
                if i > 0 {
                    assert(all[i] == rest[i - 1]);
                } else {
                    assert(all[0] == s.take(n));
                }
            }
        }
    }
}

proof fn lemma_small_joined(ws: Seq<Seq<char>>)
    requires
        forall|i: int| 0 <= i < ws.len() ==> is_small(#[trigger] ws[i]),
    ensures
        is_small(joined(ws, " "@)),
    decreases ws.len(),
{
    reveal_strlit(" ");
    if ws.len() > 0 {
        assert(is_small(ws[ws.len() - 1]));
        if ws.len() > 1 {
            let less = ws.drop_last();
            assert forall|i: int| 0 <= i < less.len() implies is_small(#[trigger] less[i]) by {
                assert(is_small(ws[i]));
            }
            lemma_small_joined(less);
            let a = joined(less, " "@);
            let w = ws.last();
            let r = a + " "@ + w;
            assert forall|i: int| 0 <= i < r.len() implies ascii(#[trigger] r[i]) && ascii_lower(
                r[i],
            ) == r[i] by {
                if i < a.len() {
                    assert(r[i] == a[i]);
                } else if i == a.len() {
                    assert(r[i] == ' ');
                } else {
                    assert(r[i] == w[i - a.len() - 1]);
                }
            }
        }
    }
}

proof fn lemma_normalized_is_small(s: Seq<char>)
    requires
        is_ascii(s),
    ensures
        is_small(normalized(s)),
{
    lemma_small(s);
    lemma_small_words(lowered(s), Part::Alphanumeric);
    lemma_small_joined(words(lowered(s), Part::Alphanumeric));
}

/// Normalizing twice changes nothing: not where the normalized text is its own lower case, and so
/// not for an ASCII text.
pub proof fn law_normalizing_twice_changes_nothing(s: Seq<char>)
    ensures
        lowered(normalized(s)) == normalized(s) ==> normalized(normalized(s)) == normalized(s),
        is_ascii(s) ==> normalized(normalized(s)) == normalized(s),
{
    law_normalizing_keeps_the_words(s);
    if is_ascii(s) {
        lemma_normalized_is_small(s);
        lemma_small(normalized(s));
    }
}

/// The letters and numbers of a text, as they are.
pub open spec fn alphanumerics(s: Seq<char>) -> Seq<char>
    decreases s.len(),
{
    if s.len() == 0 {
        Seq::empty()
    } else if alphanumeric(s.last()) {
        alphanumerics(s.drop_last()).push(s.last())
    } else {
        alphanumerics(s.drop_last())
    }
}

/// A text without its blanks.
pub open spec fn unspaced(s: Seq<char>) -> Seq<char>
    decreases s.len(),
{
    if s.len() == 0 {
        Seq::empty()
    } else if s.last() != ' ' {
        unspaced(s.drop_last()).push(s.last())
    } else {
        unspaced(s.drop_last())
    }
}

/// Letters and numbers are picked out of two texts as out of one.
proof fn lemma_alphanumerics_add(a: Seq<char>, b: Seq<char>)
    ensures
        alphanumerics(a + b) == alphanumerics(a) + alphanumerics(b),
    decreases b.len(),
{
    if b.len() == 0 {
        assert(a + b =~= a);
        assert(alphanumerics(a) + alphanumerics(b) =~= alphanumerics(a));
    } else {
        assert((a + b).drop_last() =~= a + b.drop_last());
        lemma_alphanumerics_add(a, b.drop_last());
        assert(alphanumerics(a + b) =~= alphanumerics(a) + alphanumerics(b));
    }
}

proof fn lemma_alphanumerics_of_word(w: Seq<char>)
    requires
        forall|i: int| 0 <= i < w.len() ==> alphanumeric(#[trigger] w[i]),
    ensures
        alphanumerics(w) == w,
    decreases w.len(),
{
    if w.len() > 0 {
        assert(alphanumeric(w[w.len() - 1]));
        let less = w.drop_last();
        assert forall|i: int| 0 <= i < less.len() implies alphanumeric(#[trigger] less[i]) by {
            assert(alphanumeric(w[i]));
        }
        lemma_alphanumerics_of_word(less);
        assert(alphanumerics(w) =~= w);
    }
}

/// The texts of a list, one after the other.
spec fn flat(ws: Seq<Seq<char>>) -> Seq<char>
    decreases ws.len(),
{
    if ws.len() == 0 {
        Seq::empty()
    } else {
        flat(ws.drop_last()) + ws.last()
    }
}

proof fn lemma_flat_first(w: Seq<char>, rest: Seq<Seq<char>>)
    ensures
        flat(seq![w] + rest) == w + flat(rest),
    decreases rest.len(),
{
    let all = seq![w] + rest;
    reveal_with_fuel(flat, 2);
    if rest.len() == 0 {
        assert(all.drop_last() =~= Seq::empty());
        assert(flat(all) =~= w + flat(rest));
    } else {
        assert(all.drop_last() =~= seq![w] + rest.drop_last());
        lemma_flat_first(w, rest.drop_last());
        assert(flat(all) =~= w + flat(rest));
    }
}

/// The words of a text hold its letters and numbers, in order.
proof fn lemma_words_hold_letters(s: Seq<char>)
    ensures
        flat(words(s, Part::Alphanumeric)) == alphanumerics(s),
    decreases s.len(),
{
    if s.len() > 0 {
        let n = run(s, Part::Alphanumeric) as int;
        lemma_run(s, Part::Alphanumeric);
        let k = if n == 0 {
            1
        } else {
            n
        };
        lemma_words_hold_letters(s.skip(k));
        lemma_alphanumerics_add(s.take(k), s.skip(k));
        assert(s.take(k) + s.skip(k) =~= s);
        if n == 0 {
            assert(s.take(1).drop_last() =~= Seq::empty());
            assert(s.take(1).last() == s[0]);
            reveal_with_fuel(alphanumerics, 2);
            assert(alphanumerics(s) =~= alphanumerics(s.skip(1)));
        } else {
            let w = s.take(n);
            assert forall|i: int| 0 <= i < w.len() implies alphanumeric(#[trigger] w[i]) by {
                assert(Part::Alphanumeric.takes(s[i]));
            }
            lemma_alphanumerics_of_word(w);
            lemma_flat_first(w, words(s.skip(n), Part::Alphanumeric));
        }
    }
}

/// Joining words with blanks adds neither letter nor number.
proof fn lemma_joining_adds_no_letters(ws: Seq<Seq<char>>)
    requires
        forall|i: int| 0 <= i < ws.len() ==> is_word(#[trigger] ws[i], Part::Alphanumeric),
    ensures
        alphanumerics(joined(ws, " "@)) == flat(ws),
    decreases ws.len(),
{
    reveal_strlit(" ");
    if ws.len() > 0 {
        let w = ws.last();
        let less = ws.drop_last();
        assert(is_word(ws[ws.len() - 1], Part::Alphanumeric));
        assert forall|i: int| 0 <= i < w.len() implies alphanumeric(#[trigger] w[i]) by {
            assert(Part::Alphanumeric.takes(w[i]));
        }
        lemma_alphanumerics_of_word(w);
        assert forall|i: int| 0 <= i < less.len() implies is_word(
            #[trigger] less[i],
            Part::Alphanumeric,
        ) by {
            assert(is_word(ws[i], Part::Alphanumeric));
        }
        lemma_joining_adds_no_letters(less);
        if ws.len() > 1 {
            let a = joined(less, " "@);
            lemma_alphanumerics_add(a + " "@, w);
            assert((a + " "@).drop_last() =~= a);
            assert((a + " "@).last() == ' ');
        } else {
            assert(flat(ws) =~= w);
        }
    }
}

proof fn lemma_unspaced(s: Seq<char>)
    requires
        forall|i: int| 0 <= i < s.len() ==> alphanumeric(#[trigger] s[i]) || s[i] == ' ',
    ensures
        unspaced(s) == alphanumerics(s),
    decreases s.len(),
{
    if s.len() > 0 {
        assert(alphanumeric(s[s.len() - 1]) || s[s.len() - 1] == ' ');
        let less = s.drop_last();
        assert forall|i: int| 0 <= i < less.len() implies alphanumeric(#[trigger] less[i])
            || less[i] == ' ' by {
            assert(alphanumeric(s[i]) || s[i] == ' ');
        }
        lemma_unspaced(less);
    }
}

proof fn lemma_letters_of_ascii(s: Seq<char>)
    requires
        is_small(s),
    ensures
        letters(s) == alphanumerics(s),
        is_small(letters(s)),
        forall|i: int| 0 <= i < letters(s).len() ==> alphanumeric(#[trigger] letters(s)[i]),
    decreases s.len(),
{
    if s.len() > 0 {
        assert(ascii(s[s.len() - 1]));
        assert(is_small(s.drop_last()));
        lemma_letters_of_ascii(s.drop_last());
        assert(plain(s.last()) == s.last());
    }
}

/// In one piece, an ASCII text is its letters and numbers in lower case: what normalizing leaves
/// but for the blanks. Normalizing it first, or putting it in one piece twice, changes nothing.
pub proof fn law_one_piece_of_ascii(s: Seq<char>)
    requires
        is_ascii(s),
    ensures
        squeezed(s) == alphanumerics(lowered(s)),
        squeezed(s) == unspaced(normalized(s)),
        squeezed(normalized(s)) == squeezed(s),
        squeezed(squeezed(s)) == squeezed(s),
{
    let t = lowered(s);
    let n = normalized(s);
    lemma_small(s);
    lemma_letters_of_ascii(t);
    lemma_words(t, Part::Alphanumeric);
    lemma_words_hold_letters(t);
    lemma_joining_adds_no_letters(words(t, Part::Alphanumeric));
    law_normalized_is_evenly_spaced(s);
    lemma_unspaced(n);
    lemma_normalized_is_small(s);
    lemma_small(n);
    lemma_letters_of_ascii(n);
    let p = squeezed(s);
    lemma_small(p);
    lemma_letters_of_ascii(p);
    lemma_alphanumerics_of_word(p);
}

/// Every word of a text stands in it.
proof fn lemma_words_stand(s: Seq<char>, part: Part, i: int)
    requires
        0 <= i < words(s, part).len(),
    ensures
        has(s, words(s, part)[i]),
    decreases s.len(),
{
    let n = run(s, part) as int;
    lemma_run(s, part);
    let w = words(s, part)[i];
    if n > 0 && i == 0 {
        assert(s.subrange(0, w.len() as int) =~= w);
        assert(at(s, w, 0));
    } else {
        let k = if n == 0 {
            1
        } else {
            n
        };
        let rest = s.skip(k);
        let j = if n == 0 {
            i
        } else {
            i - 1
        };
        assert(words(rest, part)[j] == w);
        lemma_words_stand(rest, part, j);
        let m = choose|m: int| at(rest, w, m);
        assert(s.subrange(m + k, m + k + w.len()) =~= rest.subrange(m, m + w.len()));
        assert(at(s, w, m + k));
    }
}

proof fn lemma_covers(terms: Seq<Seq<char>>, s: Seq<char>)
    requires
        forall|i: int| 0 <= i < terms.len() ==> has(s, #[trigger] terms[i]),
    ensures
        covered(terms, s) == terms.len(),
    decreases terms.len(),
{
    if terms.len() > 0 {
        assert(has(s, terms[terms.len() - 1]));
        let less = terms.drop_last();
        assert forall|i: int| 0 <= i < less.len() implies has(s, #[trigger] less[i]) by {
            assert(has(s, terms[i]));
        }
        lemma_covers(less, s);
    }
}

/// A title that is the query has all the terms that are looked for and its last word, whatever its
/// capitals, and is an exact match where it has a letter or a number.
pub proof fn law_own_title_matches(query: Seq<char>, c: Candidate)
    requires
        c.title@ == query,
    ensures
        covered(plain_terms(query), lowered(c.title@)) == plain_terms(query).len(),
        normalized(query).len() > 0 ==> is_exact(query, c) && is_surname(query, c),
{
    let t = lowered(query);
    let ws = words(t, Part::Alphanumeric);
    let terms = plain_terms(query);
    lemma_long_ones(ws);
    assert forall|i: int| 0 <= i < terms.len() implies has(t, #[trigger] terms[i]) by {
        assert(ws.contains(terms[i]));
        let k = choose|k: int| 0 <= k < ws.len() && ws[k] == terms[i];
        lemma_words_stand(t, Part::Alphanumeric, k);
    }
    lemma_covers(terms, t);
    let n = normalized(query);
    if n.len() > 0 {
        assert(n.subrange(0, n.len() as int) =~= n);
        assert(at(n, n, 0));
        law_normalizing_keeps_the_words(query);
        let last = words(n, Part::Alphanumeric);
        assert(last.len() > 0);
        lemma_words_stand(n, Part::Alphanumeric, last.len() - 1);
    }
}

proof fn lemma_occurrences(s: Seq<char>, pat: Seq<char>)
    ensures
        occurrences(s, pat) > 0 <==> has(s, pat),
    decreases s.len(),
{
    if pat.len() == 0 {
        assert(s.subrange(0, 0) =~= pat);
        assert(at(s, pat, 0));
    } else if s.len() >= pat.len() && !at(s, pat, 0) {
        let rest = s.skip(1);
        lemma_occurrences(rest, pat);
        if has(rest, pat) {
            let i = choose|i: int| at(rest, pat, i);
            assert(s.subrange(i + 1, i + 1 + pat.len()) =~= rest.subrange(i, i + pat.len()));
            assert(at(s, pat, i + 1));
        }
        if has(s, pat) {
            let i = choose|i: int| at(s, pat, i);
            assert(rest.subrange(i - 1, i - 1 + pat.len()) =~= s.subrange(i, i + pat.len()));
            assert(at(rest, pat, i - 1));
        }
    }
}

/// A term has hits in a text exactly where the text covers it.
pub proof fn law_hits_are_covered(term: Seq<char>, s: Seq<char>)
    ensures
        occurrences(s, term) > 0 <==> covered(seq![term], s) == 1,
{
    lemma_occurrences(s, term);
    reveal_with_fuel(covered, 2);
}

} // verus!
