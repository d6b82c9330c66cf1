//! Reading queries and candidates: what of a query a candidate matches, and where.

use vstd::prelude::*;
use vstd::utf8::encode_utf8;
use crate::similarity::{law_cosine_at_most_one, lemma_pairs_with_nothing};
use crate::text::{
    alphanumeric, at, before, chars_of, contains, count_occurrences, find, first_at, has, join,
    joined, lowered, occurrences, same, texts, up_to, words, words_of, Part,
};

verus! {

/// A raw search result.
#[derive(Debug, Clone)]
pub struct Candidate {
    pub title: String,
    pub url: String,
    pub snippet: String,
    /// The source that found it: "ddg", "github", "wikipedia", "derin" ...
    pub source: String,
    /// 0 for a hit of a search engine, 1 for one found inside a page.
    pub depth: u8,
    /// The text of the fetched page, where it was fetched.
    pub page: String,
}

/// The engine that reads matches out of texts.
pub struct NeuralRank;

/// A capital I without a dot becomes its own lower-case letter, the dotless one.
pub open spec fn dotless(c: char) -> char {
    if c == 'I' {
        'ı'
    } else {
        c
    }
}

/// A text in lower case, as Turkish has it: I becomes ı.
pub open spec fn turkish_lower(s: Seq<char>) -> Seq<char> {
    lowered(Seq::new(s.len(), |i: int| dotless(s[i])))
}

/// A text in lower case, as Turkish has it.
pub fn lower_turkish(s: &str) -> (r: String)
    ensures
        r@ == turkish_lower(s@),
{
    let chars = chars_of(s);
    let mut t = String::new();
    let mut i: usize = 0;
    while i < chars.len()
        invariant
            i <= chars@.len(),
            chars@ == s@,
            t@ =~= Seq::new(i as nat, |j: int| dotless(s@[j])),
        decreases chars@.len() - i,
    {
        t.push(
            if chars[i] == 'I' {
                'ı'
            } else {
                chars[i]
            },
        );
        i = i + 1;
    }
    proof {
        assert(t@ =~= Seq::new(s@.len(), |j: int| dotless(s@[j])));
    }
    t.as_str().to_lowercase()
}

/// The texts of a list that have more than two characters.
pub open spec fn long_ones(ws: Seq<Seq<char>>) -> Seq<Seq<char>>
    decreases ws.len(),
{
    if ws.len() == 0 {
        Seq::empty()
    } else if ws.last().len() > 2 {
        long_ones(ws.drop_last()).push(ws.last())
    } else {
        long_ones(ws.drop_last())
    }
}

/// The terms of a text.
pub open spec fn tokens(s: Seq<char>) -> Seq<Seq<char>> {
    long_ones(words(turkish_lower(s), Part::Alphanumeric))
}

/// The terms of a text in plain lower case, in which I becomes i. They are what is looked for in
/// titles and snippets, which are put in plain lower case too.
pub open spec fn plain_terms(s: Seq<char>) -> Seq<Seq<char>> {
    long_ones(words(lowered(s), Part::Alphanumeric))
}

/// The words of a text that have more than two letters or numbers.
fn long_words(lower: &str) -> (r: Vec<String>)
    ensures
        texts(r@) == long_ones(words(lower@, Part::Alphanumeric)),
{
    let all = words_of(lower, Part::Alphanumeric);
    let ghost ws = texts(all@);
    let mut out: Vec<String> = Vec::new();
    let mut i: usize = 0;
    proof {
        assert(texts(out@) =~= long_ones(ws.take(0)));
    }
    while i < all.len()
        invariant
            i <= all@.len(),
            ws == texts(all@),
            texts(out@) == long_ones(ws.take(i as int)),
        decreases all@.len() - i,
    {
        proof {
            assert(ws.take(i + 1).drop_last() =~= ws.take(i as int));
            assert(ws.take(i + 1).last() == all@[i as int]@);
        }
        if chars_of(all[i].as_str()).len() > 2 {
            let ghost before = out@;
            out.push(all[i].clone());
            proof {
                assert(texts(out@) =~= texts(before).push(all@[i as int]@));
            }
        }
        i = i + 1;
    }
    proof {
        assert(ws.take(ws.len() as int) =~= ws);
    }
    out
}

/// The terms of a text: its words of more than two letters or numbers, in lower case as Turkish
/// has it (I becomes ı).
pub fn tokenize(q: &str) -> (r: Vec<String>)
    ensures
        texts(r@) == tokens(q@),
{
    long_words(lower_turkish(q).as_str())
}

/// A text in lower case, its words set apart by one blank each.
pub open spec fn normalized(s: Seq<char>) -> Seq<char> {
    joined(words(lowered(s), Part::Alphanumeric), " "@)
}

/// A text in lower case, in which whatever sets words apart is one blank.
pub fn normalize(s: &str) -> (r: String)
    ensures
        r@ == normalized(s@),
{
    let lower = s.to_lowercase();
    let ws = words_of(lower.as_str(), Part::Alphanumeric);
    join(&ws, " ")
}

/// The letter without its mark, for the letters that Turkish adds to the Latin alphabet.
pub open spec fn plain(c: char) -> char {
    if c == 'ç' {
        'c'
    } else if c == 'ğ' {
        'g'
    } else if c == 'ı' {
        'i'
    } else if c == 'ö' {
        'o'
    } else if c == 'ş' {
        's'
    } else if c == 'ü' {
        'u'
    } else {
        c
    }
}

/// The letters and numbers of a text, in plain letters.
pub open spec fn letters(s: Seq<char>) -> Seq<char>
    decreases s.len(),
{
    if s.len() == 0 {
        Seq::empty()
    } else if alphanumeric(s.last()) {
        letters(s.drop_last()).push(plain(s.last()))
    } else {
        letters(s.drop_last())
    }
}

/// A text in one piece: its letters and numbers only, in lower case and in plain letters.
pub open spec fn squeezed(s: Seq<char>) -> Seq<char> {
    letters(lowered(s))
}

fn plain_letter(c: char) -> (r: char)
    ensures
        r == plain(c),
{
    if c == 'ç' {
        'c'
    } else if c == 'ğ' {
        'g'
    } else if c == 'ı' {
        'i'
    } else if c == 'ö' {
        'o'
    } else if c == 'ş' {
        's'
    } else if c == 'ü' {
        'u'
    } else {
        c
    }
}

/// A text in one piece, as it stands in user names: its letters and numbers only, in lower case
/// and without the marks of Turkish letters ("Berkcan Özbalci" becomes "berkcanozbalci").
pub fn squished(s: &str) -> (r: String)
    ensures
        r@ == squeezed(s@),
{
    let lower = s.to_lowercase();
    let chars = chars_of(lower.as_str());
    let mut out = String::new();
    let mut i: usize = 0;
    while i < chars.len()
        invariant
            i <= chars@.len(),
            out@ == letters(chars@.take(i as int)),
        decreases chars@.len() - i,
    {
        proof {
            assert(chars@.take(i + 1).drop_last() =~= chars@.take(i as int));
            assert(chars@.take(i + 1).last() == chars@[i as int]);
        }
        if chars[i].is_alphanumeric() {
            out.push(plain_letter(chars[i]));
        }
        i = i + 1;
    }
    proof {
        assert(chars@.take(chars@.len() as int) =~= chars@);
    }
    out
}

/// How far a source is trusted, in hundredths.
pub open spec fn authority_of(source: Seq<char>) -> nat {
    if source == "gecmis"@ {
        140
    } else if source == "wikipedia"@ || source == "apinex-derin"@ {
        125
    } else if source == "ddg-özet"@ || source == "wikidata"@ || source == "dbpedia"@
        || source == "apinex"@ || source == "exa"@ || source == "tavily"@ || source == "serper"@
        || source == "langsearch"@ {
        120
    } else if source == "github"@ || source == "brave"@ || source == "stack"@ {
        115
    } else if source == "arxiv"@ || source == "akademik"@ || source == "hackernews"@ {
        110
    } else if source == "ddg-web"@ || source == "twitter"@ {
        105
    } else if source == "ddg"@ || source == "bing"@ || source == "npm"@ || source == "crates"@
        || source == "mastodon"@ || source == "bluesky"@ || source == "wiby"@ {
        100
    } else if source == "cc"@ {
        95
    } else if source == "derin"@ {
        90
    } else {
        85
    }
}

/// How many of the terms occur in a text.
pub open spec fn covered(terms: Seq<Seq<char>>, s: Seq<char>) -> nat
    decreases terms.len(),
{
    if terms.len() == 0 {
        0
    } else {
        covered(terms.drop_last(), s) + if has(s, terms.last()) {
            1nat
        } else {
            0
        }
    }
}

/// How many of the terms occur in a text.
pub fn coverage(terms: &Vec<String>, s: &str) -> (r: usize)
    ensures
        r == covered(texts(terms@), s@),
        r <= terms@.len(),
{
    let ghost ts = texts(terms@);
    let mut n: usize = 0;
    let mut i: usize = 0;
    while i < terms.len()
        invariant
            i <= terms@.len(),
            ts == texts(terms@),
            n <= i,
            n == covered(ts.take(i as int), s@),
        decreases terms@.len() - i,
    {
        proof {
            assert(ts.take(i + 1).drop_last() =~= ts.take(i as int));
            assert(ts.take(i + 1).last() == terms@[i as int]@);
        }
        if contains(s, terms[i].as_str()) {
            n = n + 1;
        }
        i = i + 1;
    }
    proof {
        assert(ts.take(ts.len() as int) =~= ts);
    }
    n
}

/// How often one text stands in a list.
pub open spec fn times(list: Seq<Seq<char>>, word: Seq<char>) -> nat
    decreases list.len(),
{
    if list.len() == 0 {
        0
    } else {
        times(list.drop_last(), word) + if list.last() == word {
            1nat
        } else {
            0
        }
    }
}

/// In how many ways an item of `a` can be paired with an equal item of `b`. It is the inner
/// product of how often each text stands in the two lists.
pub open spec fn pairs(a: Seq<Seq<char>>, b: Seq<Seq<char>>) -> nat
    decreases a.len(),
{
    if a.len() == 0 {
        0
    } else {
        pairs(a.drop_last(), b) + times(b, a.last())
    }
}

proof fn lemma_times_bound(list: Seq<Seq<char>>, word: Seq<char>)
    ensures
        times(list, word) <= list.len(),
    decreases list.len(),
{
    if list.len() > 0 {
        lemma_times_bound(list.drop_last(), word);
    }
}

fn count_equal(list: &Vec<String>, word: &str) -> (r: usize)
    ensures
        r == times(texts(list@), word@),
{
    let ghost ws = texts(list@);
    let mut n: usize = 0;
    let mut i: usize = 0;
    while i < list.len()
        invariant
            i <= list@.len(),
            ws == texts(list@),
            n <= i,
            n == times(ws.take(i as int), word@),
        decreases list@.len() - i,
    {
        proof {
            assert(ws.take(i + 1).drop_last() =~= ws.take(i as int));
            assert(ws.take(i + 1).last() == list@[i as int]@);
        }
        if same(list[i].as_str(), word) {
            n = n + 1;
        }
        i = i + 1;
    }
    proof {
        assert(ws.take(ws.len() as int) =~= ws);
    }
    n
}

fn count_pairs(a: &Vec<String>, b: &Vec<String>) -> (r: u128)
    ensures
        r == pairs(texts(a@), texts(b@)),
{
    let ghost ws = texts(a@);
    let mut n: u128 = 0;
    let mut i: usize = 0;
    while i < a.len()
        invariant
            i <= a@.len(),
            ws == texts(a@),
            n == pairs(ws.take(i as int), texts(b@)),
            n <= i * b.len(),
        decreases a@.len() - i,
    {
        proof {
            assert(ws.take(i + 1).drop_last() =~= ws.take(i as int));
            assert(ws.take(i + 1).last() == a@[i as int]@);
            lemma_times_bound(texts(b@), a@[i as int]@);
            let m: int = b@.len() as int;
            assert((i + 1) * m == i * m + m) by (nonlinear_arith);
            assert((i + 1) * m <= u64::MAX * u64::MAX) by (nonlinear_arith)
                requires
                    0 <= i + 1 <= u64::MAX,
                    0 <= m <= u64::MAX,
            ;
        }
        n = n + count_equal(b, a[i].as_str()) as u128;
        i = i + 1;
    }
    proof {
        assert(ws.take(ws.len() as int) =~= ws);
    }
    n
}

/// What the cosine of the angle between two texts is made of: `dot / (sqrt(qn) * sqrt(dn))`.
/// Each text counts as the vector of how often each term stands in it.
#[derive(Debug, Clone, Copy, PartialEq, Eq, Structural)]
pub struct Cosine {
    /// The inner product.
    pub dot: u128,
    /// The square of the query's length.
    pub qn: u128,
    /// The square of the text's length.
    pub dn: u128,
}

/// How a query and a candidate meet: how often each term of the query stands in the title and
/// in the snippet, and the cosine between the query and both together.
#[derive(Debug, Clone)]
pub struct Hits {
    pub title: Vec<u128>,
    pub snippet: Vec<u128>,
    pub cosine: Cosine,
}

/// Whether the numbers are those of the cosine between these terms and this text.
pub open spec fn is_cosine(c: Cosine, terms: Seq<Seq<char>>, s: Seq<char>) -> bool {
    &&& c.dot == pairs(terms, tokens(s))
    &&& c.qn == pairs(terms, terms)
    &&& c.dn == pairs(tokens(s), tokens(s))
}

/// Whether the numbers say how often each term stands in the text, in lower case.
pub open spec fn is_term_hits(hits: Seq<u128>, terms: Seq<Seq<char>>, s: Seq<char>) -> bool {
    &&& hits.len() == terms.len()
    &&& forall|i: int|
        0 <= i < terms.len() ==> #[trigger] hits[i] == occurrences(lowered(s), terms[i])
}

impl NeuralRank {
    /// How far a source is trusted, in hundredths.
    pub fn authority(source: &str) -> (r: u32)
        ensures
            r == authority_of(source@),
    {
        if same(source, "gecmis") {
            140
        } else if same(source, "wikipedia") || same(source, "apinex-derin") {
            125
        } else if same(source, "ddg-özet") || same(source, "wikidata") || same(source, "dbpedia")
            || same(source, "apinex") || same(source, "exa") || same(source, "tavily")
            || same(source, "serper") || same(source, "langsearch") {
            120
        } else if same(source, "github") || same(source, "brave") || same(source, "stack") {
            115
        } else if same(source, "arxiv") || same(source, "akademik") || same(source, "hackernews") {
            110
        } else if same(source, "ddg-web") || same(source, "twitter") {
            105
        } else if same(source, "ddg") || same(source, "bing") || same(source, "npm")
            || same(source, "crates") || same(source, "mastodon") || same(source, "bluesky")
            || same(source, "wiby") {
            100
        } else if same(source, "cc") {
            95
        } else if same(source, "derin") {
            90
        } else {
            85
        }
    }

    /// How often each term stands in a text, in lower case.
    pub fn term_hits(query_terms: &Vec<String>, text: &str) -> (r: Vec<u128>)
        ensures
            is_term_hits(r@, texts(query_terms@), text@),
    {
        let lower = text.to_lowercase();
        let mut out: Vec<u128> = Vec::new();
        let mut i: usize = 0;
        while i < query_terms.len()
            invariant
                i <= query_terms@.len(),
                lower@ == lowered(text@),
                out@.len() == i,
                forall|j: int|
                    0 <= j < i ==> #[trigger] out@[j] == occurrences(
                        lowered(text@),
                        query_terms@[j]@,
                    ),
            decreases query_terms@.len() - i,
        {
            out.push(count_occurrences(lower.as_str(), query_terms[i].as_str()));
            i = i + 1;
        }
        out
    }

    /// The cosine between the terms of a query and a text.
    pub fn cosine(query_terms: &Vec<String>, text: &str) -> (r: Cosine)
        ensures
            is_cosine(r, texts(query_terms@), text@),
    {
        let doc = tokenize(text);
        Cosine {
            dot: count_pairs(query_terms, &doc),
            qn: count_pairs(query_terms, query_terms),
            dn: count_pairs(&doc, &doc),
        }
    }

    /// How the terms of a query meet a candidate.
    pub fn score(&self, query_terms: &Vec<String>, c: &Candidate) -> (r: Hits)
        ensures
            is_term_hits(r.title@, texts(query_terms@), c.title@),
            is_term_hits(r.snippet@, texts(query_terms@), c.snippet@),
            is_cosine(r.cosine, texts(query_terms@), c.title@ + " "@ + c.snippet@),
    {
        Self::meet(query_terms, query_terms, c)
    }

    /// How a candidate is met by the terms that are looked for in its texts, and by those that it is
    /// compared with.
    fn meet(looked_for: &Vec<String>, compared: &Vec<String>, c: &Candidate) -> (r: Hits)
        ensures
            is_term_hits(r.title@, texts(looked_for@), c.title@),
            is_term_hits(r.snippet@, texts(looked_for@), c.snippet@),
            is_cosine(r.cosine, texts(compared@), c.title@ + " "@ + c.snippet@),
    {
        let combined = c.title.clone().concat(" ").concat(c.snippet.as_str());
        Hits {
            title: Self::term_hits(looked_for, c.title.as_str()),
            snippet: Self::term_hits(looked_for, c.snippet.as_str()),
            cosine: Self::cosine(compared, combined.as_str()),
        }
    }
}

/// The host that an address names: what stands between the first "://" (or the start, where there
/// is none) and the next "://" or "/".
pub open spec fn host(url: Seq<char>) -> Seq<char> {
    if has(url, "://"@) {
        before(before(url.skip(first_at(url, "://"@) + 3), "://"@), "/"@)
    } else {
        before(url, "/"@)
    }
}

/// The host that an address names.
pub fn host_of(url: &str) -> (r: &str)
    ensures
        r@ == host(url@),
{
    proof {
        reveal_strlit("://");
    }
    let n = chars_of(url).len();
    match find(url, "://") {
        Some(i) => {
            let rest = url.substring_char(i + 3, n);
            proof {
                assert(rest@ =~= url@.skip(i + 3));
            }
            up_to(up_to(rest, "://"), "/")
        },
        None => up_to(url, "/"),
    }
}

/// What the ranking reads of a query and a candidate. Counts and flags only: the scores are
/// made of them.
#[derive(Debug, Clone)]
pub struct Signals {
    /// How the terms meet title and snippet; nothing where the query has no terms.
    pub hits: Option<Hits>,
    /// How far the source is trusted, in hundredths.
    pub authority: u32,
    /// How many terms the query has.
    pub terms: usize,
    /// How many of them occur in the title.
    pub title_terms: usize,
    /// How many of them occur in the snippet.
    pub snippet_terms: usize,
    /// How many of them occur in title and snippet together.
    pub all_terms: usize,
    /// How many bytes title and snippet have, up to 2000.
    pub length: usize,
    /// The cosine between the query and the fetched page.
    pub page: Cosine,
    /// Whether a search engine found it, not a page.
    pub shallow: bool,
    /// Whether the whole query stands in the title or in the address.
    pub exact: bool,
    /// Whether the last word of the query stands in the title.
    pub surname: bool,
    /// Whether the query in one piece stands in the title or in the address.
    pub handle: bool,
}

/// The trust in a candidate's source, in hundredths. A Wikipedia page whose title has none of
/// the terms keeps three fifths of it.
pub open spec fn trust_of(source: Seq<char>, title_terms: nat) -> nat {
    if title_terms == 0 && source == "wikipedia"@ {
        authority_of(source) * 3 / 5
    } else {
        authority_of(source)
    }
}

/// Whether the query in one piece stands in the title or in the address of a candidate.
pub open spec fn in_one_piece(query: Seq<char>, c: Candidate) -> bool {
    has(squeezed(c.title@), squeezed(query)) || has(squeezed(c.url@), squeezed(query))
}

/// Whether the whole query stands in the title or in the address of a candidate.
pub open spec fn is_exact(query: Seq<char>, c: Candidate) -> bool {
    &&& normalized(query).len() > 0
    &&& has(normalized(c.title@), normalized(query)) || in_one_piece(query, c)
}

/// Whether the query is a user name of at least four letters that the candidate carries.
pub open spec fn is_handle(query: Seq<char>, c: Candidate) -> bool {
    squeezed(query).len() >= 4 && in_one_piece(query, c)
}

/// Whether the last word of the query stands in the title.
pub open spec fn is_surname(query: Seq<char>, c: Candidate) -> bool {
    let ws = words(lowered(query), Part::Alphanumeric);
    ws.len() > 0 && has(normalized(c.title@), ws.last())
}

/// Whether `r` is what the ranking reads of this query and this candidate.
pub open spec fn is_signals(r: Signals, query: Seq<char>, c: Candidate) -> bool {
    let terms = plain_terms(query);
    let title = lowered(c.title@);
    let snippet = lowered(c.snippet@);
    let bytes = encode_utf8(c.title@).len() + encode_utf8(c.snippet@).len();
    &&& match r.hits {
        Some(h) => {
            &&& terms.len() > 0
            &&& is_term_hits(h.title@, terms, c.title@)
            &&& is_term_hits(h.snippet@, terms, c.snippet@)
            &&& is_cosine(h.cosine, tokens(query), c.title@ + " "@ + c.snippet@)
        },
        None => terms.len() == 0,
    }
    &&& r.terms == terms.len()
    &&& r.title_terms == covered(terms, title)
    &&& r.snippet_terms == covered(terms, snippet)
    &&& r.all_terms == covered(terms, title + " "@ + snippet)
    &&& r.authority == trust_of(c.source@, r.title_terms as nat)
    &&& r.length == if bytes < 2000 {
        bytes as int
    } else {
        2000
    }
    &&& is_cosine(r.page, tokens(query), c.page@)
    &&& r.shallow == (c.depth == 0)
    &&& r.exact == is_exact(query, c)
    &&& r.surname == is_surname(query, c)
    &&& r.handle == is_handle(query, c)
}

fn at_most_2000(n: usize) -> (r: usize)
    ensures
        r == if n < 2000 {
            n
        } else {
            2000
        },
{
    if n < 2000 {
        n
    } else {
        2000
    }
}

/// An empty text has no terms, and shares none with any list.
proof fn lemma_nothing_to_compare(terms: Vec<String>, s: Seq<char>)
    requires
        s.len() == 0,
    ensures
        pairs(texts(terms@), tokens(s)) == 0,
        pairs(tokens(s), tokens(s)) == 0,
{
    assert(turkish_lower(s) =~= Seq::empty());
    assert(tokens(s) =~= Seq::empty());
    lemma_pairs_with_nothing(texts(terms@), tokens(s));
}

/// What the ranking reads of a query and a candidate.
pub fn signals(query: &str, c: &Candidate) -> (r: Signals)
    ensures
        is_signals(r, query@, *c),
        c.page@.len() == 0 ==> r.page.dot == 0 && r.page.dn == 0,
{
    let terms = long_words(query.to_lowercase().as_str());
    let compared = tokenize(query);
    let hits = if terms.len() == 0 {
        None
    } else {
        Some(NeuralRank::meet(&terms, &compared, c))
    };
    let title = c.title.as_str().to_lowercase();
    let snippet = c.snippet.as_str().to_lowercase();
    let title_terms = coverage(&terms, title.as_str());
    let snippet_terms = coverage(&terms, snippet.as_str());
    let both = title.concat(" ").concat(snippet.as_str());
    let all_terms = coverage(&terms, both.as_str());
    let mut authority = NeuralRank::authority(c.source.as_str());
    if title_terms == 0 && same(c.source.as_str(), "wikipedia") {
        authority = authority * 3 / 5;
    }
    let length = at_most_2000(
        at_most_2000(c.title.as_str().as_bytes().len()) + at_most_2000(
            c.snippet.as_str().as_bytes().len(),
        ),
    );
    let page = NeuralRank::cosine(&compared, c.page.as_str());
    proof {
        if c.page@.len() == 0 {
            lemma_nothing_to_compare(compared, c.page@);
        }
    }
    let whole = normalize(query);
    let piece = squished(query);
    let title_norm = normalize(c.title.as_str());
    let title_piece = squished(c.title.as_str());
    let url_piece = squished(c.url.as_str());
    let in_piece = contains(title_piece.as_str(), piece.as_str()) || contains(
        url_piece.as_str(),
        piece.as_str(),
    );
    let exact = !whole.as_str().is_empty() && (contains(title_norm.as_str(), whole.as_str())
        || in_piece);
    let query_words = words_of(query.to_lowercase().as_str(), Part::Alphanumeric);
    let surname = query_words.len() > 0 && contains(
        title_norm.as_str(),
        query_words[query_words.len() - 1].as_str(),
    );
    proof {
        if query_words@.len() > 0 {
            let ws = texts(query_words@);
            assert(ws.last() == query_words@[query_words@.len() - 1]@);
        }
    }
    let handle = chars_of(piece.as_str()).len() >= 4 && in_piece;
    Signals {
        hits,
        authority,
        terms: terms.len(),
        title_terms,
        snippet_terms,
        all_terms,
        length,
        page,
        shallow: c.depth == 0,
        exact,
        surname,
        handle,
    }
}

/// A result to show where no source can be reached.
pub fn mock_candidates(query: &str) -> (r: Vec<Candidate>)
    ensures
        r@.len() == 1,
        r@[0].title@ == query@ + " — çevrimdışı önizleme"@,
        r@[0].url@ == "https://example.com"@,
        r@[0].snippet@ == "Bağlantı kurulamadı; bu bir yer tutucu sonuçtur."@,
        r@[0].source@ == "yerli"@,
        r@[0].depth == 0,
        r@[0].page@ == ""@,
{
    let mut out: Vec<Candidate> = Vec::new();
    out.push(
        Candidate {
            title: query.to_string().concat(" — çevrimdışı önizleme"),
            url: "https://example.com".to_string(),
            snippet: "Bağlantı kurulamadı; bu bir yer tutucu sonuçtur.".to_string(),
            source: "yerli".to_string(),
            depth: 0,
            page: "".to_string(),
        },
    );
    out
}

/// A candidate that a search engine found, without its page.
pub fn cand(title: &str, url: &str, snippet: &str, source: &str) -> (r: Candidate)
    ensures
        r.title@ == title@,
        r.url@ == url@,
        r.snippet@ == snippet@,
        r.source@ == source@,
        r.depth == 0,
        r.page@ == ""@,
{
    Candidate {
        title: title.to_string(),
        url: url.to_string(),
        snippet: snippet.to_string(),
        source: source.to_string(),
        depth: 0,
        page: "".to_string(),
    }
}

proof fn lemma_has_more(s: Seq<char>, pat: Seq<char>, left: Seq<char>, right: Seq<char>)
    requires
        has(s, pat),
    ensures
        has(left + s + right, pat),
{
    let i = choose|i: int| at(s, pat, i);
    let all = left + s + right;
    let k = left.len() + i;
    assert(all.subrange(k, k + pat.len()) =~= s.subrange(i, i + pat.len()));
    assert(at(all, pat, k));
}

/// A longer text covers no fewer terms, and no text covers more terms than there are.
pub proof fn law_coverage_grows(
    terms: Seq<Seq<char>>,
    s: Seq<char>,
    left: Seq<char>,
    right: Seq<char>,
)
    ensures
        covered(terms, s) <= covered(terms, left + s + right) <= terms.len(),
    decreases terms.len(),
{
    if terms.len() > 0 {
        law_coverage_grows(terms.drop_last(), s, left, right);
        if has(s, terms.last()) {
            lemma_has_more(s, terms.last(), left, right);
        }
    }
}

/// What the scores are made of keeps each of them between nought and one: no more terms are
/// covered than there are, what title or snippet covers they cover together, no source is trusted
/// more than the most trusted one, no cosine is larger than one, and the length is at most its
/// bound.
pub proof fn law_signals_in_range(r: Signals, query: Seq<char>, c: Candidate)
    requires
        is_signals(r, query, c),
    ensures
        r.title_terms <= r.all_terms <= r.terms,
        r.snippet_terms <= r.all_terms,
        0 < r.authority <= 140,
        r.length <= 2000,
        r.page.dot * r.page.dot <= r.page.qn * r.page.dn,
        r.hits matches Some(h) ==> h.cosine.dot * h.cosine.dot <= h.cosine.qn * h.cosine.dn,
{
    let terms = plain_terms(query);
    let title = lowered(c.title@);
    let snippet = lowered(c.snippet@);
    let nothing = Seq::<char>::empty();
    law_coverage_grows(terms, title, nothing, " "@ + snippet);
    assert(nothing + title + (" "@ + snippet) =~= title + " "@ + snippet);
    law_coverage_grows(terms, snippet, title + " "@, nothing);
    assert(title + " "@ + snippet + nothing =~= title + " "@ + snippet);
    law_cosine_at_most_one(tokens(query), tokens(c.page@));
    law_cosine_at_most_one(tokens(query), tokens(c.title@ + " "@ + c.snippet@));
}

} // verus!
