//! The network's self-test: what it is asked, and what its answers have to satisfy.

use vstd::prelude::*;

verus! {

/// An answer of the network, or a number made of answers.
#[derive(Debug, Clone)]
pub struct Reading {
    /// Its place among answers: the bits of the 32-bit float, which grow with the number where it
    /// is not negative. Nothing where it is not a number.
    pub bits: Option<u32>,
    /// It, with three digits after the point.
    pub text: String,
}

/// An answer of the network, as it is and rounded to thousandths.
#[derive(Debug, Clone)]
pub struct Answer {
    pub raw: Reading,
    pub rounded: Reading,
}

/// One question of the self-test, with the network's answer.
#[derive(Debug, Clone)]
pub struct Probe {
    pub name: String,
    /// What was asked: features in hundredths.
    pub feats: [u8; 12],
    pub output: Reading,
    pub expect: String,
    pub pass: bool,
}

/// The bits of 0.70.
pub const SEVEN_TENTHS: u32 = 0x3F333333;

/// The bits of 0.30.
pub const THREE_TENTHS: u32 = 0x3E99999A;

/// The bits of 0.55.
pub const FIFTY_FIVE_HUNDREDTHS: u32 = 0x3F0CCCCD;

/// How many questions there are.
pub const N_PROBES: usize = 7;

/// What is asked: first the seven questions, then the four that they are compared with (a shallow
/// hit, a page that does not match, the similar name and the full name).
pub const QUESTIONS: [[u8; 12]; 11] = [
    [95, 90, 100, 100, 80, 90, 85, 100, 100, 100, 100, 80],
    [2, 0, 50, 0, 90, 0, 0, 100, 0, 0, 0, 0],
    [80, 75, 30, 80, 70, 75, 60, 100, 0, 80, 50, 0],
    [15, 10, 100, 20, 60, 15, 10, 100, 0, 0, 0, 0],
    [80, 75, 80, 80, 70, 75, 70, 40, 0, 80, 50, 0],
    [55, 50, 70, 50, 60, 50, 90, 100, 0, 0, 50, 0],
    [80, 75, 85, 50, 75, 80, 65, 100, 0, 0, 50, 0],
    [80, 75, 80, 80, 70, 75, 70, 100, 0, 80, 50, 0],
    [55, 50, 70, 50, 60, 50, 5, 100, 0, 0, 50, 0],
    [80, 75, 85, 50, 75, 80, 65, 100, 0, 0, 50, 0],
    [85, 80, 90, 100, 75, 85, 70, 100, 100, 100, 100, 100],
];

/// Whether the first number is larger. What is not a number is never larger nor smaller.
pub open spec fn above(a: Option<u32>, b: Option<u32>) -> bool {
    a is Some && b is Some && a->Some_0 > b->Some_0
}

/// Whether the first number is larger. What is not a number is never larger nor smaller.
pub fn is_above(a: Option<u32>, b: Option<u32>) -> (r: bool)
    ensures
        r == above(a, b),
{
    match a {
        Some(x) => match b {
            Some(y) => x > y,
            None => false,
        },
        None => false,
    }
}

/// The name of a question.
pub open spec fn name_of(i: int) -> Seq<char> {
    if i == 0 {
        "tam eşleşme + otoriter"@
    } else if i == 1 {
        "tamamen alakasız"@
    } else if i == 2 {
        "eşleşme var, kaynak zayıf"@
    } else if i == 3 {
        "zayıf eşleşme, otoriter kaynak"@
    } else if i == 4 {
        "2. halka cezası"@
    } else if i == 5 {
        "monotonluk: sayfa-metni artışı"@
    } else {
        "BERKCAN AYRIMI: özbalci > ozan"@
    }
}

/// The answer that a question is reported with: of the last one, that for the full name.
pub open spec fn shown_of(answers: Seq<Answer>, i: int) -> Reading {
    if i == 6 {
        answers[10].rounded
    } else {
        answers[i].rounded
    }
}

/// What a question expects of the answers, in words.
pub open spec fn expect_of(answers: Seq<Answer>, i: int) -> Seq<char> {
    if i == 0 {
        "skor > 0.70"@
    } else if i == 1 {
        "skor < 0.30"@
    } else if i == 2 {
        "zayıf "@ + answers[2].rounded.text@ + " < tam "@ + answers[0].rounded.text@
    } else if i == 3 {
        "skor < 0.55"@
    } else if i == 4 {
        "derin "@ + answers[4].raw.text@ + " < sığ "@ + answers[7].raw.text@
    } else if i == 5 {
        "iyi "@ + answers[5].raw.text@ + " > kötü "@ + answers[8].raw.text@
    } else {
        "özbalci "@ + answers[10].raw.text@ + " > ozan "@ + answers[9].raw.text@ + " + marj"@
    }
}

/// Whether the answers satisfy a question. A full match scores high and an unrelated page low; a
/// weak source scores below a full match, but is not lost; authority does not make up for a weak
/// match; a deep hit scores below its shallow twin; matching page text raises the score; the full
/// name beats the similar one by the margin.
pub open spec fn pass_of(answers: Seq<Answer>, ozan_and_margin: Option<u32>, i: int) -> bool {
    if i == 0 {
        above(answers[0].raw.bits, Some(SEVEN_TENTHS))
    } else if i == 1 {
        above(Some(THREE_TENTHS), answers[1].raw.bits)
    } else if i == 2 {
        above(answers[2].rounded.bits, Some(THREE_TENTHS)) && above(
            answers[0].rounded.bits,
            answers[2].rounded.bits,
        )
    } else if i == 3 {
        above(Some(FIFTY_FIVE_HUNDREDTHS), answers[3].raw.bits)
    } else if i == 4 {
        above(answers[7].raw.bits, answers[4].raw.bits)
    } else if i == 5 {
        above(answers[5].raw.bits, answers[8].raw.bits)
    } else {
        above(answers[10].raw.bits, ozan_and_margin)
    }
}

/// Whether `p` reports question `i`.
pub open spec fn is_probe(
    p: Probe,
    answers: Seq<Answer>,
    ozan_and_margin: Option<u32>,
    i: int,
) -> bool {
    &&& p.name@ == name_of(i)
    &&& p.feats == QUESTIONS@[i]
    &&& p.output.bits == shown_of(answers, i).bits
    &&& p.output.text@ == shown_of(answers, i).text@
    &&& p.expect@ == expect_of(answers, i)
    &&& p.pass == pass_of(answers, ozan_and_margin, i)
}

fn name(i: usize) -> (r: &'static str)
    ensures
        r@ == name_of(i as int),
{
    if i == 0 {
        "tam eşleşme + otoriter"
    } else if i == 1 {
        "tamamen alakasız"
    } else if i == 2 {
        "eşleşme var, kaynak zayıf"
    } else if i == 3 {
        "zayıf eşleşme, otoriter kaynak"
    } else if i == 4 {
        "2. halka cezası"
    } else if i == 5 {
        "monotonluk: sayfa-metni artışı"
    } else {
        "BERKCAN AYRIMI: özbalci > ozan"
    }
}

fn expectation(answers: &Vec<Answer>, i: usize) -> (r: String)
    requires
        answers@.len() == QUESTIONS@.len(),
    ensures
        r@ == expect_of(answers@, i as int),
{
    if i == 0 {
        "skor > 0.70".to_string()
    } else if i == 1 {
        "skor < 0.30".to_string()
    } else if i == 2 {
        "zayıf ".to_string().concat(answers[2].rounded.text.as_str()).concat(" < tam ").concat(
            answers[0].rounded.text.as_str(),
        )
    } else if i == 3 {
        "skor < 0.55".to_string()
    } else if i == 4 {
        "derin ".to_string().concat(answers[4].raw.text.as_str()).concat(" < sığ ").concat(
            answers[7].raw.text.as_str(),
        )
    } else if i == 5 {
        "iyi ".to_string().concat(answers[5].raw.text.as_str()).concat(" > kötü ").concat(
            answers[8].raw.text.as_str(),
        )
    } else {
        "özbalci ".to_string().concat(answers[10].raw.text.as_str()).concat(" > ozan ").concat(
            answers[9].raw.text.as_str(),
        ).concat(" + marj")
    }
}

fn verdict(answers: &Vec<Answer>, ozan_and_margin: Option<u32>, i: usize) -> (r: bool)
    requires
        answers@.len() == QUESTIONS@.len(),
    ensures
        r == pass_of(answers@, ozan_and_margin, i as int),
{
    if i == 0 {
        is_above(answers[0].raw.bits, Some(SEVEN_TENTHS))
    } else if i == 1 {
        is_above(Some(THREE_TENTHS), answers[1].raw.bits)
    } else if i == 2 {
        is_above(answers[2].rounded.bits, Some(THREE_TENTHS)) && is_above(
            answers[0].rounded.bits,
            answers[2].rounded.bits,
        )
    } else if i == 3 {
        is_above(Some(FIFTY_FIVE_HUNDREDTHS), answers[3].raw.bits)
    } else if i == 4 {
        is_above(answers[7].raw.bits, answers[4].raw.bits)
    } else if i == 5 {
        is_above(answers[5].raw.bits, answers[8].raw.bits)
    } else {
        is_above(answers[10].raw.bits, ozan_and_margin)
    }
}

/// The report of the self-test, from the network's answers to `QUESTIONS` and the answer for the
/// similar name with the margin added.
pub fn self_test(answers: &Vec<Answer>, ozan_and_margin: Option<u32>) -> (r: Vec<Probe>)
    requires
        answers@.len() == QUESTIONS@.len(),
    ensures
        r@.len() == N_PROBES,
        forall|i: int|
            0 <= i < r@.len() ==> is_probe(#[trigger] r@[i], answers@, ozan_and_margin, i),
{
    let questions = QUESTIONS;
    let mut out: Vec<Probe> = Vec::new();
    let mut i: usize = 0;
    while i < N_PROBES
        invariant
            i <= N_PROBES,
            questions == QUESTIONS,
            answers@.len() == QUESTIONS@.len(),
            out@.len() == i,
            forall|k: int|
                0 <= k < i ==> is_probe(#[trigger] out@[k], answers@, ozan_and_margin, k),
        decreases N_PROBES - i,
    {
        let at: usize = if i == 6 { 10 } else { i };
        let shown = &answers[at].rounded;
        let output = Reading { bits: shown.bits, text: shown.text.clone() };
        let p = Probe {
            name: name(i).to_string(),
            feats: questions[i],
            output,
            expect: expectation(answers, i),
            pass: verdict(answers, ozan_and_margin, i),
        };
        out.push(p);
        i = i + 1;
    }
    out
}

/// How many questions are passed.
pub open spec fn passes(probes: Seq<Probe>) -> nat
    decreases probes.len(),
{
    if probes.len() == 0 {
        0
    } else {
        passes(probes.drop_last()) + if probes.last().pass {
            1nat
        } else {
            0
        }
    }
}

/// How many questions are passed.
pub fn passed(probes: &Vec<Probe>) -> (r: usize)
    ensures
        r == passes(probes@),
{
    let mut n: usize = 0;
    let mut i: usize = 0;
    while i < probes.len()
        invariant
            i <= probes@.len(),
            n <= i,
            n == passes(probes@.take(i as int)),
        decreases probes@.len() - i,
    {
        proof {
            assert(probes@.take(i + 1).drop_last() =~= probes@.take(i as int));
        }
        if probes[i].pass {
            n = n + 1;
        }
        i = i + 1;
    }
    proof {
        assert(probes@.take(probes@.len() as int) =~= probes@);
    }
    n
}

} // verus!
