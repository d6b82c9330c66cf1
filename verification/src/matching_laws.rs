//! What reading a query and a candidate is for, over all of them.

use vstd::prelude::*;
use vstd::utf8::encode_utf8;
use crate::research::{
    authority_of, covered, dotless, host, is_cosine, is_signals, is_term_hits, letters, long_ones,
    normalized, pairs, plain, plain_terms, squeezed, times, tokens, turkish_lower, Candidate,
    Cosine, Signals,
};
use crate::text::{
    alphanumeric, at, before, first_at, has, is_first_at, joined, lowered, occurrences, words, Part,
};
use crate::text_laws::law_before;

verus! {

/// The Turkish lower case of a text is the lower case of the same text with ı in place of I.
pub proof fn law_turkish_lower(s: Seq<char>, t: Seq<char>)
    requires
        t.len() == s.len(),
        forall|i: int| 0 <= i < s.len() ==> #[trigger] t[i] == if s[i] == 'I' {
            'ı'
        } else {
            s[i]
        },
    ensures
        turkish_lower(s) == lowered(t),
{
    assert(Seq::new(s.len(), |i: int| dotless(s[i])) =~= t);
}

proof fn lemma_long_ones_filter(ws: Seq<Seq<char>>)
    ensures
        long_ones(ws) == ws.filter(|w: Seq<char>| w.len() > 2),
    decreases ws.len(),
{
    reveal(Seq::filter);
    if ws.len() > 0 {
        lemma_long_ones_filter(ws.drop_last());
    }
}

/// The terms of a text are those of its words, in Turkish or in plain lower case, that have more
/// than two characters: all of them, in order.
pub proof fn law_terms_are_the_long_words(q: Seq<char>)
    ensures
        tokens(q) == words(turkish_lower(q), Part::Alphanumeric).filter(
            |w: Seq<char>| w.len() > 2,
        ),
        plain_terms(q) == words(lowered(q), Part::Alphanumeric).filter(|w: Seq<char>| w.len() > 2),
{
    lemma_long_ones_filter(words(turkish_lower(q), Part::Alphanumeric));
    lemma_long_ones_filter(words(lowered(q), Part::Alphanumeric));
}

/// A normalized text is the words of the text in lower case with a blank between neighbours.
pub proof fn law_normalized(s: Seq<char>)
    ensures
        normalized(s) == joined(words(lowered(s), Part::Alphanumeric), seq![' ']),
{
    reveal_strlit(" ");
    assert(" "@ =~= seq![' ']);
}

/// Letters are picked out of two texts as out of one.
pub proof fn law_letters(a: Seq<char>, b: Seq<char>)
    ensures
        letters(a + b) == letters(a) + letters(b),
    decreases b.len(),
{
    if b.len() == 0 {
        assert(a + b =~= a);
        assert(letters(a) + letters(b) =~= letters(a));
    } else {
        assert((a + b).drop_last() =~= a + b.drop_last());
        law_letters(a, b.drop_last());
        assert(letters(a + b) =~= letters(a) + letters(b));
    }
}

/// In one piece, a text in lower case keeps its letters and numbers, the six letters that Turkish
/// adds without their marks, and nothing else.
pub proof fn law_one_piece(s: Seq<char>, c: char)
    ensures
        squeezed(s) == letters(lowered(s)),
        !alphanumeric(c) ==> letters(seq![c]).len() == 0,
        alphanumeric(c) && c != 'ç' && c != 'ğ' && c != 'ı' && c != 'ö' && c != 'ş' && c != 'ü'
            ==> letters(seq![c]) == seq![c],
        alphanumeric(c) ==> letters(seq![c]).len() == 1,
        alphanumeric('ç') ==> letters(seq!['ç']) == seq!['c'],
        alphanumeric('ğ') ==> letters(seq!['ğ']) == seq!['g'],
        alphanumeric('ı') ==> letters(seq!['ı']) == seq!['i'],
        alphanumeric('ö') ==> letters(seq!['ö']) == seq!['o'],
        alphanumeric('ş') ==> letters(seq!['ş']) == seq!['s'],
        alphanumeric('ü') ==> letters(seq!['ü']) == seq!['u'],
{
    reveal_with_fuel(letters, 2);
    assert forall|d: char| #![trigger seq![d]] seq![d].drop_last() =~= Seq::<char>::empty() by {}
    assert(letters(seq![c]) =~= if alphanumeric(c) {
        seq![plain(c)]
    } else {
        Seq::empty()
    });
    assert(letters(seq!['ç']) =~= if alphanumeric('ç') { seq!['c'] } else { Seq::empty() });
    assert(letters(seq!['ğ']) =~= if alphanumeric('ğ') { seq!['g'] } else { Seq::empty() });
    assert(letters(seq!['ı']) =~= if alphanumeric('ı') { seq!['i'] } else { Seq::empty() });
    assert(letters(seq!['ö']) =~= if alphanumeric('ö') { seq!['o'] } else { Seq::empty() });
    assert(letters(seq!['ş']) =~= if alphanumeric('ş') { seq!['s'] } else { Seq::empty() });
    assert(letters(seq!['ü']) =~= if alphanumeric('ü') { seq!['u'] } else { Seq::empty() });
}

/// Two lists of terms are covered as each of them is; one term is covered where it occurs.
pub proof fn law_covered(a: Seq<Seq<char>>, b: Seq<Seq<char>>, s: Seq<char>)
    ensures
        covered(a + b, s) == covered(a, s) + covered(b, s),
        a.len() == 0 ==> covered(a, s) == 0,
        a.len() == 1 ==> covered(a, s) == if has(s, a[0]) {
            1nat
        } else {
            0nat
        },
    decreases b.len(),
{
    reveal_with_fuel(covered, 2);
    if b.len() == 0 {
        assert(a + b =~= a);
    } else {
        assert((a + b).drop_last() =~= a + b.drop_last());
        law_covered(a, b.drop_last(), s);
    }
}

/// How often a text stands in two lists is how often it stands in each.
pub proof fn law_times(a: Seq<Seq<char>>, b: Seq<Seq<char>>, word: Seq<char>)
    ensures
        times(a + b, word) == times(a, word) + times(b, word),
        a.len() == 0 ==> times(a, word) == 0,
        a.len() == 1 ==> times(a, word) == if a[0] == word {
            1nat
        } else {
            0nat
        },
    decreases b.len(),
{
    reveal_with_fuel(times, 2);
    if b.len() == 0 {
        assert(a + b =~= a);
    } else {
        assert((a + b).drop_last() =~= a + b.drop_last());
        law_times(a, b.drop_last(), word);
    }
}

/// Two lists pair with a third as each of them does; one text pairs with its equals.
pub proof fn law_pairs(a: Seq<Seq<char>>, b: Seq<Seq<char>>, c: Seq<Seq<char>>)
    ensures
        pairs(a + b, c) == pairs(a, c) + pairs(b, c),
        a.len() == 0 ==> pairs(a, c) == 0,
        a.len() == 1 ==> pairs(a, c) == times(c, a[0]),
    decreases b.len(),
{
    reveal_with_fuel(pairs, 2);
    if b.len() == 0 {
        assert(a + b =~= a);
    } else {
        assert((a + b).drop_last() =~= a + b.drop_last());
        law_pairs(a, b.drop_last(), c);
    }
}

/// The numbers of a cosine are the inner product of the terms with those of the text, and the
/// inner products of each with itself.
pub proof fn law_cosine(c: Cosine, terms: Seq<Seq<char>>, s: Seq<char>)
    ensures
        is_cosine(c, terms, s) <==> c.dot == pairs(terms, tokens(s)) && c.qn == pairs(terms, terms)
            && c.dn == pairs(tokens(s), tokens(s)),
{
}

/// Hits are counted term by term, in the text in lower case.
pub proof fn law_term_hits(hits: Seq<u128>, terms: Seq<Seq<char>>, s: Seq<char>, i: int)
    requires
        is_term_hits(hits, terms, s),
    ensures
        hits.len() == terms.len(),
        0 <= i < terms.len() ==> hits[i] == occurrences(lowered(s), terms[i]),
{
}

/// Trust lies between 85 and 140 hundredths, and a source that is not among these is trusted with
/// the least.
pub proof fn law_authority(source: Seq<char>)
    ensures
        85 <= authority_of(source) <= 140,
        authority_of(source) == 140 <==> source == "gecmis"@,
        authority_of(source) == 95 ==> source == "cc"@,
        authority_of(source) == 90 ==> source == "derin"@,
        authority_of(source) != 85 ==> [
            "gecmis"@, "wikipedia"@, "apinex-derin"@, "ddg-özet"@, "wikidata"@, "dbpedia"@,
            "apinex"@, "exa"@, "tavily"@, "serper"@, "langsearch"@, "github"@, "brave"@, "stack"@,
            "arxiv"@, "akademik"@, "hackernews"@, "ddg-web"@, "twitter"@, "ddg"@, "bing"@, "npm"@,
            "crates"@, "mastodon"@, "bluesky"@, "wiby"@, "cc"@, "derin"@,
        ]@.contains(source),
{
}

/// Trust depends on the source alone, but for Wikipedia: a candidate of any other source has the
/// trust of its source whatever its title covers, and a Wikipedia page has it where its title has a
/// term of the query. Only a Wikipedia page whose title has none keeps three fifths.
pub proof fn law_only_wikipedia_loses_trust(r: Signals, query: Seq<char>, c: Candidate)
    requires
        is_signals(r, query, c),
    ensures
        c.source@ != "wikipedia"@ ==> r.authority == authority_of(c.source@),
        r.title_terms > 0 ==> r.authority == authority_of(c.source@),
        c.source@ == "wikipedia"@ && r.title_terms == 0 ==> r.authority * 5 == authority_of(
            c.source@,
        ) * 3,
{
    assert(c.source@ == "wikipedia"@ ==> authority_of(c.source@) == 125) by {
        reveal_strlit("wikipedia");
        reveal_strlit("gecmis");
        assert("wikipedia"@.len() == 9 && "gecmis"@.len() == 6);
    }
}

/// What is counted of a candidate: the terms of the query in plain lower case, how many of them
/// stand in the title, in the snippet and in both together, how often each stands there, how long
/// both are, and where it was found.
pub proof fn law_signals_count(r: Signals, query: Seq<char>, c: Candidate)
    requires
        is_signals(r, query, c),
    ensures
        r.terms == plain_terms(query).len(),
        r.title_terms == covered(plain_terms(query), lowered(c.title@)),
        r.snippet_terms == covered(plain_terms(query), lowered(c.snippet@)),
        r.all_terms == covered(
            plain_terms(query),
            lowered(c.title@) + seq![' '] + lowered(c.snippet@),
        ),
        r.hits is Some <==> plain_terms(query).len() > 0,
        r.hits matches Some(h) ==> {
            &&& h.title@.len() == plain_terms(query).len()
            &&& h.snippet@.len() == plain_terms(query).len()
            &&& forall|i: int|
                0 <= i < h.title@.len() ==> #[trigger] h.title@[i] == occurrences(
                    lowered(c.title@),
                    plain_terms(query)[i],
                )
            &&& forall|i: int|
                0 <= i < h.snippet@.len() ==> #[trigger] h.snippet@[i] == occurrences(
                    lowered(c.snippet@),
                    plain_terms(query)[i],
                )
            &&& h.cosine.dot == pairs(tokens(query), tokens(c.title@ + seq![' '] + c.snippet@))
            &&& h.cosine.qn == pairs(tokens(query), tokens(query))
            &&& h.cosine.dn == pairs(
                tokens(c.title@ + seq![' '] + c.snippet@),
                tokens(c.title@ + seq![' '] + c.snippet@),
            )
        },
        r.page.dot == pairs(tokens(query), tokens(c.page@)),
        r.page.qn == pairs(tokens(query), tokens(query)),
        r.page.dn == pairs(tokens(c.page@), tokens(c.page@)),
        encode_utf8(c.title@).len() + encode_utf8(c.snippet@).len() <= 2000 ==> r.length
            == encode_utf8(c.title@).len() + encode_utf8(c.snippet@).len(),
        encode_utf8(c.title@).len() + encode_utf8(c.snippet@).len() > 2000 ==> r.length == 2000,
        r.shallow <==> c.depth == 0,
{
    reveal_strlit(" ");
    assert(" "@ =~= seq![' ']);
    if r.hits is Some {
        let h = r.hits->Some_0;
        assert forall|i: int| 0 <= i < h.title@.len() implies #[trigger] h.title@[i] == occurrences(
            lowered(c.title@),
            plain_terms(query)[i],
        ) by {
            law_term_hits(h.title@, plain_terms(query), c.title@, i);
        }
        assert forall|i: int| 0 <= i < h.snippet@.len() implies #[trigger] h.snippet@[i]
            == occurrences(lowered(c.snippet@), plain_terms(query)[i]) by {
            law_term_hits(h.snippet@, plain_terms(query), c.snippet@, i);
        }
    }
}

/// What is recognised of a candidate: the whole query in the title, or in one piece in the title
/// or the address; the last word of the query in the title; and, from four characters on, the query
/// in one piece in the title or the address.
pub proof fn law_signals_recognise(r: Signals, query: Seq<char>, c: Candidate)
    requires
        is_signals(r, query, c),
    ensures
        r.exact <==> normalized(query).len() > 0 && (has(normalized(c.title@), normalized(query))
            || has(squeezed(c.title@), squeezed(query)) || has(squeezed(c.url@), squeezed(query))),
        r.handle <==> squeezed(query).len() >= 4 && (has(squeezed(c.title@), squeezed(query))
            || has(squeezed(c.url@), squeezed(query))),
        words(lowered(query), Part::Alphanumeric).len() == 0 ==> !r.surname,
        words(lowered(query), Part::Alphanumeric).len() > 0 ==> (r.surname <==> has(
            normalized(c.title@),
            words(lowered(query), Part::Alphanumeric)[words(
                lowered(query),
                Part::Alphanumeric,
            ).len() - 1],
        )),
{
}

proof fn lemma_no_slash(s: Seq<char>, pat: Seq<char>)
    requires
        forall|i: int| 0 <= i < s.len() ==> #[trigger] s[i] != '/',
        pat == "/"@ || pat == "://"@,
    ensures
        forall|i: int|
            0 <= i && i + pat.len() <= s.len() ==> (#[trigger] s.skip(i)).take(pat.len() as int)
                != pat,
{
    reveal_strlit("/");
    reveal_strlit("://");
    assert forall|i: int| 0 <= i && i + pat.len() <= s.len() implies (#[trigger] s.skip(i)).take(
        pat.len() as int,
    ) != pat by {
        let w = s.skip(i).take(pat.len() as int);
        if w == pat {
            if pat == "/"@ {
                assert(w[0] == '/');
                assert(s[i] == '/');
            } else {
                assert(w[1] == '/');
                assert(s[i + 1] == '/');
            }
        }
    }
}

/// What stands before the first slash of a text whose head has none.
proof fn lemma_up_to_slash(h: Seq<char>, tail: Seq<char>)
    requires
        forall|i: int| 0 <= i < h.len() ==> #[trigger] h[i] != '/',
        tail.len() > 0 ==> tail[0] == '/',
    ensures
        before(h + tail, "/"@) == h,
{
    reveal_strlit("/");
    let s = h + tail;
    if tail.len() == 0 {
        assert(s =~= h);
        lemma_no_slash(h, "/"@);
        law_before(h, h, "/"@, h);
    } else {
        let rest = tail.skip(1);
        assert(s =~= h + "/"@ + rest);
        assert forall|i: int| 0 <= i < h.len() implies (#[trigger] s.skip(i)).take(
            "/"@.len() as int,
        ) != "/"@ by {
            if s.skip(i).take(1) == "/"@ {
                assert(s.skip(i).take(1)[0] == '/');
                assert(s[i] == h[i]);
            }
        }
        law_before(s, h, "/"@, rest);
    }
}

/// What stands before the first "://" of such a text begins with its head.
proof fn lemma_up_to_scheme(h: Seq<char>, tail: Seq<char>)
    requires
        forall|i: int| 0 <= i < h.len() ==> #[trigger] h[i] != '/',
        h.len() > 0 ==> h[h.len() - 1] != ':',
        tail.len() > 0 ==> tail[0] == '/',
    ensures
        exists|t: Seq<char>|
            (t.len() > 0 ==> t[0] == '/') && before(h + tail, "://"@) == #[trigger] (h
                + t),
{
    reveal_strlit("://");
    let s = h + tail;
    if has(s, "://"@) {
        let j = choose|j: int| at(s, "://"@, j);
        lemma_first_exists(s, "://"@, j);
        let k = first_at(s, "://"@);
        assert(is_first_at(s, "://"@, 0, Some(k)));
        assert(at(s, "://"@, k));
        let w = s.subrange(k, k + 3);
        assert(w[0] == ':' && w[1] == '/');
        assert(s[k] == ':' && s[k + 1] == '/');
        assert(k >= h.len());
        let t = s.take(k).skip(h.len() as int);
        assert(h + t =~= s.take(k));
        if t.len() > 0 {
            assert(t[0] == tail[0]);
        }
        assert(before(s, "://"@) == h + t);
    } else {
        assert(before(s, "://"@) == h + tail);
    }
}

proof fn lemma_first_exists(s: Seq<char>, pat: Seq<char>, j: int)
    requires
        at(s, pat, j),
    ensures
        is_first_at(s, pat, 0, Some(first_at(s, pat))),
    decreases j,
{
    if exists|i: int| 0 <= i < j && at(s, pat, i) {
        let i = choose|i: int| 0 <= i < j && at(s, pat, i);
        lemma_first_exists(s, pat, i);
    } else {
        assert(is_first_at(s, pat, 0, Some(j)));
    }
}

/// The host of an address is what stands between its scheme and its path, whatever the scheme and
/// the path, and with its port; an address without a scheme begins with it.
pub proof fn law_host(scheme: Seq<char>, h: Seq<char>, path: Seq<char>)
    requires
        forall|i: int| 0 <= i < scheme.len() ==> #[trigger] scheme[i] != ':',
        forall|i: int| 0 <= i < h.len() ==> #[trigger] h[i] != '/',
        h.len() > 0 ==> h[h.len() - 1] != ':',
        path.len() > 0 ==> path[0] == '/',
    ensures
        host(scheme + seq![':', '/', '/'] + h + path) == h,
        (forall|i: int| 0 <= i < h.len() ==> #[trigger] h[i] != ':') && (forall|i: int|
            0 <= i < path.len() ==> #[trigger] path[i] != ':') ==> host(h + path) == h,
{
    reveal_strlit("://");
    let sep = seq![':', '/', '/'];
    assert("://"@ =~= sep);
    let tail = h + path;
    let url = scheme + sep + h + path;
    assert(url =~= scheme + sep + tail);
    assert forall|i: int| 0 <= i < scheme.len() implies (#[trigger] url.skip(i)).take(
        sep.len() as int,
    ) != sep by {
        if url.skip(i).take(3) == sep {
            assert(url.skip(i).take(3)[0] == ':');
            assert(url[i] == scheme[i]);
        }
    }
    law_before(url, scheme, sep, tail);
    let n = scheme.len() as int;
    assert(url.subrange(n, n + 3) =~= sep);
    assert(at(url, sep, n));
    lemma_first_exists(url, sep, n);
    assert(first_at(url, sep) == n) by {
        assert(url.take(first_at(url, sep)).len() == scheme.len());
    }
    assert(url.skip(n + 3) =~= tail);
    lemma_up_to_scheme(h, path);
    let t = choose|t: Seq<char>|
        (t.len() > 0 ==> t[0] == '/') && before(tail, "://"@) == #[trigger] (h + t);
    lemma_up_to_slash(h, t);
    if (forall|i: int| 0 <= i < h.len() ==> #[trigger] h[i] != ':') && (forall|i: int|
        0 <= i < path.len() ==> #[trigger] path[i] != ':') {
        assert(!(has(tail, sep))) by {
            if has(tail, sep) {
                let j = choose|j: int| at(tail, sep, j);
                assert(tail.subrange(j, j + 3)[0] == ':');
                assert(tail[j] == ':');
                if j < h.len() {
                    assert(h[j] == ':');
                } else {
                    assert(path[j - h.len()] == ':');
                }
            }
        }
        lemma_up_to_slash(h, path);
    }
}

} // verus!
