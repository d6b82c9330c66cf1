//! Character-level text handling: case, words, searching and clipping.

use vstd::prelude::*;

verus! {

/// Whether a character is an ASCII character.
pub open spec fn ascii(c: char) -> bool {
    (c as u32) < 0x80
}

/// Whether every character of a text is an ASCII character.
pub open spec fn is_ascii(s: Seq<char>) -> bool {
    forall|i: int| 0 <= i < s.len() ==> ascii(#[trigger] s[i])
}

/// An ASCII character in lower case.
pub open spec fn ascii_lower(c: char) -> char {
    if 'A' as u32 <= c as u32 <= 'Z' as u32 {
        ((c as u32) + 0x20) as char
    } else {
        c
    }
}

/// Whether an ASCII character is a letter or a digit.
pub open spec fn ascii_alphanumeric(c: char) -> bool {
    ||| '0' as u32 <= c as u32 <= '9' as u32
    ||| 'A' as u32 <= c as u32 <= 'Z' as u32
    ||| 'a' as u32 <= c as u32 <= 'z' as u32
}

/// What `str::to_lowercase` makes of a text that has other characters than those of ASCII.
pub uninterp spec fn lowered_beyond_ascii(s: Seq<char>) -> Seq<char>;

/// A text in lower case.
pub open spec fn lowered(s: Seq<char>) -> Seq<char> {
    if is_ascii(s) {
        Seq::new(s.len(), |i: int| ascii_lower(s[i]))
    } else {
        lowered_beyond_ascii(s)
    }
}

/// `str::to_lowercase`: the text in lower case, by Unicode's case tables. It is a function of the
/// text alone. An ASCII text is lowered letter by letter; of other texts nothing more is said.
pub assume_specification[ str::to_lowercase ](s: &str) -> (r: String)
    ensures
        r@ == if is_ascii(s@) {
            Seq::new(s@.len(), |i: int| ascii_lower(s@[i]))
        } else {
            lowered_beyond_ascii(s@)
        },
;

/// What `char::is_alphanumeric` says of a character that is not an ASCII character.
pub uninterp spec fn alphanumeric_beyond_ascii(c: char) -> bool;

/// Whether a character is a letter or a number.
pub open spec fn alphanumeric(c: char) -> bool {
    if ascii(c) {
        ascii_alphanumeric(c)
    } else {
        alphanumeric_beyond_ascii(c)
    }
}

/// `char::is_alphanumeric`: whether the character is a letter or a number, by Unicode's tables. In
/// ASCII these are the letters and the digits; of other characters nothing more is said.
pub assume_specification[ char::is_alphanumeric ](c: char) -> (r: bool)
    ensures
        r == if ascii(c) {
            ascii_alphanumeric(c)
        } else {
            alphanumeric_beyond_ascii(c)
        },
;

/// Whether a character has Unicode's `White_Space` property.
pub open spec fn white(c: char) -> bool {
    let n = c as u32;
    ||| 0x09 <= n <= 0x0D
    ||| n == 0x20
    ||| n == 0x85
    ||| n == 0xA0
    ||| n == 0x1680
    ||| 0x2000 <= n <= 0x200A
    ||| n == 0x2028
    ||| n == 0x2029
    ||| n == 0x202F
    ||| n == 0x205F
    ||| n == 0x3000
}

/// `char::is_whitespace`: whether the character has Unicode's `White_Space` property.
pub assume_specification[ char::is_whitespace ](c: char) -> (r: bool)
    ensures
        r == white(c),
;

/// `String::push`: the character is put at the end of the text.
pub assume_specification[ String::push ](s: &mut String, c: char)
    ensures
        final(s)@ == old(s)@.push(c),
;

/// The characters of a text, in order.
pub fn chars_of(s: &str) -> (r: Vec<char>)
    ensures
        r@ == s@,
{
    let mut v: Vec<char> = Vec::new();
    for c in it: s.chars()
        invariant
            it.seq() == s@,
            v@ == s@.take(it.index()),
    {
        v.push(c);
        proof {
            assert(s@.take(it.index() + 1) =~= s@.take(it.index()).push(c));
        }
    }
    proof {
        assert(s@.take(s@.len() as int) =~= s@);
    }
    v
}

/// The text made of the characters `from..to`.
pub fn text_of(chars: &Vec<char>, from: usize, to: usize) -> (r: String)
    requires
        from <= to <= chars@.len(),
    ensures
        r@ == chars@.subrange(from as int, to as int),
{
    let mut out = String::new();
    let mut i: usize = from;
    while i < to
        invariant
            from <= i <= to <= chars@.len(),
            out@ == chars@.subrange(from as int, i as int),
        decreases to - i,
    {
        out.push(chars[i]);
        i = i + 1;
        proof {
            assert(chars@.subrange(from as int, i as int) =~= chars@.subrange(from as int, i - 1).push(
                chars@[i - 1],
            ));
        }
    }
    out
}

/// Whether `pat` stands in `s` at position `i`.
pub open spec fn at(s: Seq<char>, pat: Seq<char>, i: int) -> bool {
    &&& 0 <= i
    &&& i + pat.len() <= s.len()
    &&& s.subrange(i, i + pat.len()) == pat
}

/// Whether `pat` stands in `chars` at position `i`.
pub fn stands_at(chars: &Vec<char>, pat: &Vec<char>, i: usize) -> (r: bool)
    ensures
        r == at(chars@, pat@, i as int),
{
    if i > chars.len() || pat.len() > chars.len() - i {
        return false;
    }
    let mut k: usize = 0;
    while k < pat.len()
        invariant
            k <= pat@.len(),
            i + pat@.len() <= chars.len(),
            forall|j: int| 0 <= j < k ==> #[trigger] pat@[j] == chars@[i + j],
        decreases pat@.len() - k,
    {
        if chars[i + k] != pat[k] {
            proof {
                assert(chars@.subrange(i as int, i + pat@.len())[k as int] != pat@[k as int]);
            }
            return false;
        }
        k = k + 1;
    }
    proof {
        assert(chars@.subrange(i as int, i + pat@.len()) =~= pat@);
    }
    true
}

/// Whether two texts are equal, character by character.
pub fn same(a: &str, b: &str) -> (r: bool)
    ensures
        r == (a@ == b@),
{
    let x = chars_of(a);
    let y = chars_of(b);
    if x.len() != y.len() {
        return false;
    }
    let r = stands_at(&x, &y, 0);
    proof {
        assert(x@.subrange(0, y@.len() as int) =~= x@);
    }
    r
}

/// Whether `pat` occurs anywhere in `s`.
pub open spec fn has(s: Seq<char>, pat: Seq<char>) -> bool {
    exists|i: int| at(s, pat, i)
}

/// The position at which `pat` occurs first in `s`, from `from` on, if it does.
pub open spec fn is_first_at(s: Seq<char>, pat: Seq<char>, from: int, r: Option<int>) -> bool {
    match r {
        Some(i) => from <= i && at(s, pat, i) && forall|j: int| from <= j < i ==> !at(s, pat, j),
        None => forall|j: int| from <= j ==> !at(s, pat, j),
    }
}

/// The first position, not before `from`, at which `pat` stands in `chars`.
pub fn find_from(chars: &Vec<char>, pat: &Vec<char>, from: usize) -> (r: Option<usize>)
    ensures
        is_first_at(
            chars@,
            pat@,
            from as int,
            match r {
                Some(i) => Some(i as int),
                None => None,
            },
        ),
{
    let mut i: usize = from;
    while i < chars.len()
        invariant
            from <= i,
            forall|j: int| from <= j < i ==> !at(chars@, pat@, j),
        decreases chars@.len() - i,
    {
        if stands_at(chars, pat, i) {
            return Some(i);
        }
        i = i + 1;
    }
    if stands_at(chars, pat, i) {
        return Some(i);
    }
    None
}

/// Where `pat` occurs first in `s`.
pub open spec fn first_at(s: Seq<char>, pat: Seq<char>) -> int
    recommends
        has(s, pat),
{
    choose|i: int| is_first_at(s, pat, 0, Some(i))
}

/// What of `s` stands before the first `pat`: all of it where there is none.
pub open spec fn before(s: Seq<char>, pat: Seq<char>) -> Seq<char> {
    if has(s, pat) {
        s.take(first_at(s, pat))
    } else {
        s
    }
}

/// Where `pat` occurs first in `s`.
pub fn find(s: &str, pat: &str) -> (r: Option<usize>)
    ensures
        r is Some <==> has(s@, pat@),
        r matches Some(i) ==> i == first_at(s@, pat@) && i + pat@.len() <= s@.len(),
{
    let chars = chars_of(s);
    let wanted = chars_of(pat);
    let r = find_from(&chars, &wanted, 0);
    proof {
        match r {
            Some(i) => {
                let k = first_at(s@, pat@);
                assert(at(s@, pat@, i as int));
                assert(is_first_at(s@, pat@, 0, Some(i as int)));
                assert(is_first_at(s@, pat@, 0, Some(k)));
                assert(k == i) by {
                    if k < i {
                        assert(!at(s@, pat@, k));
                    } else if i < k {
                        assert(!at(s@, pat@, i as int));
                    }
                }
            },
            None => {
                assert forall|j: int| !at(s@, pat@, j) by {
                    if j >= 0 {
                    }
                }
            },
        }
    }
    r
}

/// Whether `pat` occurs in `s`.
pub fn contains(s: &str, pat: &str) -> (r: bool)
    ensures
        r == has(s@, pat@),
{
    match find(s, pat) {
        Some(_) => true,
        None => false,
    }
}

/// What of `s` stands before the first `pat`: all of it where there is none.
pub fn up_to<'a>(s: &'a str, pat: &str) -> (r: &'a str)
    ensures
        r@ == before(s@, pat@),
{
    match find(s, pat) {
        Some(i) => {
            proof {
                assert(s@.subrange(0, i as int) =~= s@.take(i as int));
            }
            s.substring_char(0, i)
        },
        None => s,
    }
}

/// How often `pat` occurs in `s`, read from the left, an occurrence starting only where the one
/// before it has ended. The empty text occurs before each character and at the end.
pub open spec fn occurrences(s: Seq<char>, pat: Seq<char>) -> nat
    decreases s.len(),
{
    if pat.len() == 0 {
        s.len() + 1
    } else if s.len() < pat.len() {
        0
    } else if at(s, pat, 0) {
        1 + occurrences(s.skip(pat.len() as int), pat)
    } else {
        occurrences(s.skip(1), pat)
    }
}

proof fn lemma_at_skip(s: Seq<char>, pat: Seq<char>, i: int)
    requires
        0 <= i <= s.len(),
    ensures
        at(s.skip(i), pat, 0) == at(s, pat, i),
{
    if i + pat.len() <= s.len() {
        assert(s.skip(i).subrange(0, pat.len() as int) =~= s.subrange(i, i + pat.len()));
    }
}

/// How often `pat` occurs in `s` without overlap.
pub fn count_occurrences(s: &str, pat: &str) -> (r: u128)
    ensures
        r == occurrences(s@, pat@),
{
    let chars = chars_of(s);
    let wanted = chars_of(pat);
    if wanted.len() == 0 {
        return chars.len() as u128 + 1;
    }
    let mut i: usize = 0;
    let mut n: u128 = 0;
    proof {
        assert(s@.skip(0) =~= s@);
    }
    while i < chars.len()
        invariant
            i <= chars@.len(),
            n <= i,
            chars@ == s@,
            wanted@ == pat@,
            pat@.len() > 0,
            n + occurrences(s@.skip(i as int), pat@) == occurrences(s@, pat@),
        decreases chars@.len() - i,
    {
        proof {
            lemma_at_skip(s@, pat@, i as int);
            if i + 1 <= s@.len() {
                assert(s@.skip(i as int).skip(1) =~= s@.skip(i + 1));
            }
        }
        if stands_at(&chars, &wanted, i) {
            proof {
                assert(s@.skip(i as int).skip(pat@.len() as int) =~= s@.skip(i + pat@.len()));
            }
            i = i + wanted.len();
            n = n + 1;
        } else {
            proof {
                if s@.skip(i as int).len() < pat@.len() {
                    assert(s@.skip(i + 1).len() < pat@.len());
                }
            }
            i = i + 1;
        }
    }
    n
}

/// The first `n` characters of a text, or all of them.
pub open spec fn clipped(s: Seq<char>, n: int) -> Seq<char> {
    if s.len() <= n {
        s
    } else {
        s.take(n)
    }
}

/// The first `n` characters of a text, or all of them.
pub fn clip(s: &str, n: usize) -> (r: String)
    ensures
        r@ == clipped(s@, n as int),
{
    let chars = chars_of(s);
    let to: usize = if chars.len() <= n { chars.len() } else { n };
    let r = text_of(&chars, 0, to);
    proof {
        assert(s@.subrange(0, s@.len() as int) =~= s@);
        if s@.len() > n {
            assert(s@.subrange(0, n as int) =~= s@.take(n as int));
        }
    }
    r
}

/// A kind of character that words are made of.
#[derive(Clone, Copy)]
pub enum Part {
    /// Letters and numbers.
    Alphanumeric,
    /// Anything but white space.
    Visible,
}

impl Part {
    /// Whether a character is of this kind.
    pub open spec fn takes(self, c: char) -> bool {
        match self {
            Part::Alphanumeric => alphanumeric(c),
            Part::Visible => !white(c),
        }
    }

    /// Whether a character is of this kind.
    pub fn accepts(self, c: char) -> (r: bool)
        ensures
            r == self.takes(c),
    {
        match self {
            Part::Alphanumeric => c.is_alphanumeric(),
            Part::Visible => !c.is_whitespace(),
        }
    }
}

/// How many characters at the start of `s` are of the kind `part`.
pub open spec fn run(s: Seq<char>, part: Part) -> nat
    decreases s.len(),
{
    if s.len() == 0 || !part.takes(s[0]) {
        0
    } else {
        1 + run(s.skip(1), part)
    }
}

pub proof fn lemma_run(s: Seq<char>, part: Part)
    ensures
        run(s, part) <= s.len(),
        forall|i: int| 0 <= i < run(s, part) ==> part.takes(#[trigger] s[i]),
        run(s, part) < s.len() ==> !part.takes(s[run(s, part) as int]),
    decreases s.len(),
{
    if s.len() > 0 && part.takes(s[0]) {
        let rest = s.skip(1);
        lemma_run(rest, part);
        assert forall|i: int| 0 <= i < run(s, part) implies part.takes(#[trigger] s[i]) by {
            if i > 0 {
                assert(s[i] == rest[i - 1]);
            }
        }
    }
}

/// The words of a text: its longest runs of characters of one kind, in order.
pub open spec fn words(s: Seq<char>, part: Part) -> Seq<Seq<char>>
    decreases s.len(),
{
    if s.len() == 0 {
        Seq::empty()
    } else if run(s, part) == 0 {
        words(s.skip(1), part)
    } else {
        proof {
            lemma_run(s, part);
        }
        seq![s.take(run(s, part) as int)] + words(s.skip(run(s, part) as int), part)
    }
}

/// Whether `w` is not empty and made of characters of the one kind.
pub open spec fn is_word(w: Seq<char>, part: Part) -> bool {
    &&& w.len() > 0
    &&& forall|j: int| 0 <= j < w.len() ==> part.takes(#[trigger] w[j])
}

/// The words of a text are words.
pub proof fn lemma_words(s: Seq<char>, part: Part)
    ensures
        forall|i: int| 0 <= i < words(s, part).len() ==> is_word(#[trigger] words(s, part)[i], part),
    decreases s.len(),
{
    let all = words(s, part);
    if s.len() > 0 {
        lemma_run(s, part);
        let n = run(s, part) as int;
        if n == 0 {
            lemma_words(s.skip(1), part);
            assert(all == words(s.skip(1), part));
        } else {
            let rest = words(s.skip(n), part);
            lemma_words(s.skip(n), part);
            assert(all == seq![s.take(n)] + rest);
            assert forall|i: int| 0 <= i < all.len() implies is_word(#[trigger] all[i], part) by {
                if i > 0 {
                    assert(all[i] == rest[i - 1]);
                }
            }
        }
    }
}

/// A text with a character of the kind has a word.
pub proof fn lemma_some_word(s: Seq<char>, part: Part, i: int)
    requires
        0 <= i < s.len(),
        part.takes(s[i]),
    ensures
        words(s, part).len() > 0,
    decreases s.len(),
{
    lemma_run(s, part);
    if run(s, part) == 0 {
        assert(i > 0);
        assert(s.skip(1)[i - 1] == s[i]);
        lemma_some_word(s.skip(1), part, i - 1);
    }
}

/// The texts that a list of strings holds.
pub open spec fn texts(v: Seq<String>) -> Seq<Seq<char>> {
    Seq::new(v.len(), |i: int| v[i]@)
}

/// The words of a text.
pub fn words_of(text: &str, part: Part) -> (r: Vec<String>)
    ensures
        texts(r@) == words(text@, part),
{
    let chars = chars_of(text);
    let ghost s = text@;
    let mut out: Vec<String> = Vec::new();
    let mut i: usize = 0;
    proof {
        assert(s.skip(0) =~= s);
        assert(texts(out@) + words(s, part) =~= words(s, part));
    }
    while i < chars.len()
        invariant
            i <= chars@.len(),
            chars@ == s,
            s == text@,
            texts(out@) + words(s.skip(i as int), part) == words(s, part),
        decreases chars@.len() - i,
    {
        let start: usize = i;
        let ghost rest = s.skip(i as int);
        proof {
            assert(rest.skip(0) =~= rest);
            lemma_run(rest, part);
        }
        while i < chars.len() && part.accepts(chars[i])
            invariant
                start <= i <= chars@.len(),
                chars@ == s,
                rest == s.skip(start as int),
                run(rest, part) == (i - start) + run(rest.skip(i - start), part),
            decreases chars@.len() - i,
        {
            proof {
                assert(rest.skip(i - start)[0] == s[i as int]);
                assert(rest.skip(i - start).skip(1) =~= rest.skip(i + 1 - start));
            }
            i = i + 1;
        }
        proof {
            if i < chars@.len() {
                assert(rest.skip(i - start)[0] == s[i as int]);
            }
            assert(run(rest, part) == i - start);
        }
        if i > start {
            let word = text_of(&chars, start, i);
            let ghost before = out@;
            out.push(word);
            proof {
                assert(word@ =~= rest.take(i - start));
                assert(rest.skip(i - start) =~= s.skip(i as int));
                assert(texts(out@) =~= texts(before).push(word@));
                assert(texts(before) + (seq![word@] + words(s.skip(i as int), part)) =~= texts(out@)
                    + words(s.skip(i as int), part));
            }
        } else {
            proof {
                assert(rest.skip(1) =~= s.skip(i + 1));
            }
            i = i + 1;
        }
    }
    proof {
        assert(words(s.skip(i as int), part) =~= Seq::empty());
        assert(texts(out@) + words(s.skip(i as int), part) =~= texts(out@));
    }
    out
}

/// The texts of a list, one after the other, with `sep` between neighbours.
pub open spec fn joined(ws: Seq<Seq<char>>, sep: Seq<char>) -> Seq<char>
    decreases ws.len(),
{
    if ws.len() == 0 {
        Seq::empty()
    } else if ws.len() == 1 {
        ws[0]
    } else {
        joined(ws.drop_last(), sep) + sep + ws.last()
    }
}

/// The texts of a list, one after the other, with `sep` between neighbours.
pub fn join(list: &Vec<String>, sep: &str) -> (r: String)
    ensures
        r@ == joined(texts(list@), sep@),
{
    let mut out = String::new();
    let mut i: usize = 0;
    let ghost ws = texts(list@);
    while i < list.len()
        invariant
            i <= list@.len(),
            ws == texts(list@),
            out@ == joined(ws.take(i as int), sep@),
        decreases list@.len() - i,
    {
        if i > 0 {
            out.append(sep);
        }
        out.append(list[i].as_str());
        proof {
            assert(ws.take(i + 1).drop_last() =~= ws.take(i as int));
            assert(ws.take(i + 1).last() == list@[i as int]@);
            if i == 0 {
                assert(out@ =~= ws.take(1)[0]);
            }
        }
        i = i + 1;
    }
    proof {
        assert(ws.take(ws.len() as int) =~= ws);
    }
    out
}

/// A text without the white space at its two ends.
pub open spec fn trimmed(s: Seq<char>) -> Seq<char>
    decreases s.len(),
{
    if s.len() == 0 {
        s
    } else if white(s[0]) {
        trimmed(s.skip(1))
    } else if white(s.last()) {
        trimmed(s.drop_last())
    } else {
        s
    }
}

/// A text without the white space at its two ends.
pub fn trim(s: &str) -> (r: String)
    ensures
        r@ == trimmed(s@),
{
    let chars = chars_of(s);
    let mut a: usize = 0;
    let mut b: usize = chars.len();
    proof {
        assert(s@.subrange(0, s@.len() as int) =~= s@);
    }
    while a < b && chars[a].is_whitespace()
        invariant
            a <= b == chars@.len(),
            chars@ == s@,
            trimmed(s@.subrange(a as int, b as int)) == trimmed(s@),
        decreases b - a,
    {
        proof {
            assert(s@.subrange(a as int, b as int).skip(1) =~= s@.subrange(a + 1, b as int));
        }
        a = a + 1;
    }
    while a < b && chars[b - 1].is_whitespace()
        invariant
            a <= b <= chars@.len(),
            chars@ == s@,
            a < b ==> !white(s@[a as int]),
            trimmed(s@.subrange(a as int, b as int)) == trimmed(s@),
        decreases b - a,
    {
        proof {
            assert(s@.subrange(a as int, b as int).drop_last() =~= s@.subrange(a as int, b - 1));
        }
        b = b - 1;
    }
    text_of(&chars, a, b)
}

/// The decimal digit of a number below ten.
pub open spec fn digit(d: nat) -> char {
    if d == 0 {
        '0'
    } else if d == 1 {
        '1'
    } else if d == 2 {
        '2'
    } else if d == 3 {
        '3'
    } else if d == 4 {
        '4'
    } else if d == 5 {
        '5'
    } else if d == 6 {
        '6'
    } else if d == 7 {
        '7'
    } else if d == 8 {
        '8'
    } else {
        '9'
    }
}

/// A number in decimal digits.
pub open spec fn digits(n: nat) -> Seq<char>
    decreases n,
{
    if n < 10 {
        seq![digit(n)]
    } else {
        digits(n / 10).push(digit(n % 10))
    }
}

/// A number in decimal digits.
pub fn decimal(n: u64) -> (r: String)
    ensures
        r@ == digits(n as nat),
    decreases n,
{
    let mut s = if n < 10 {
        String::new()
    } else {
        decimal(n / 10)
    };
    let d: u64 = n % 10;
    s.push(
        if d == 0 {
            '0'
        } else if d == 1 {
            '1'
        } else if d == 2 {
            '2'
        } else if d == 3 {
            '3'
        } else if d == 4 {
            '4'
        } else if d == 5 {
            '5'
        } else if d == 6 {
            '6'
        } else if d == 7 {
            '7'
        } else if d == 8 {
            '8'
        } else {
            '9'
        },
    );
    proof {
        if n < 10 {
            assert(s@ =~= seq![digit(n as nat)]);
        }
    }
    s
}

} // verus!
