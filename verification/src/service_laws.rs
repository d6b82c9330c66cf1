//! What lessons, probes, keys and requests are for.

use vstd::prelude::*;
use crate::keys::{
    appdata_of, file_of, key_in, lane_table, lane_views, opt, place_of, Lane, Place,
};
use crate::neural::{counted, is_levelled, lcg, seed1, seed2, shuffled};
use crate::probes::{above, is_probe, passes, Answer, Probe, QUESTIONS};
use crate::requests::{lane_level, mode_of};
use crate::text::white;
use crate::text_laws::law_trimmed;

verus! {

/// One step of shuffling: the generator takes its next number, of which the upper bits pick a place
/// no later than the last one, and the items at the two places change places. The rest is shuffled
/// in the same way, and a list of one place is done.
pub proof fn law_shuffling_step(s: Seq<usize>, x: u64, i: int, y: u64, j: int)
    requires
        1 <= i < s.len(),
        y == (x * 6364136223846793005 + 1442695040888963407) % 0x1_0000_0000_0000_0000,
        j == (y as int / 0x2_0000_0000) % (i + 1),
    ensures
        lcg(x) == y,
        shuffled(s, x, i) == shuffled(s.update(i, s[j]).update(j, s[i]), y, i - 1),
        shuffled(s, x, 0) == (s, x),
{
    assert(lcg(x) == y);
}

/// The first pass goes through the lessons from the first to the last.
pub proof fn law_first_pass(n: usize, i: int)
    requires
        0 <= i < n,
    ensures
        counted(n as nat).len() == n,
        counted(n as nat)[i] == i,
{
}

/// The starting weights follow their two formulas.
pub proof fn law_seeds(a: int, b: int)
    ensures
        seed1(a, b) == (31 * a + 17 * b + 7) % 23,
        seed2(a, b) == (19 * a + 23 * b + 5) % 19,
{
}

/// Levelling takes the smaller of the two on the first eight features and leaves the other four as
/// they are.
pub proof fn law_levelled(r: Seq<u8>, good: Seq<u8>, bad: Seq<u8>, i: int)
    requires
        is_levelled(r, good, bad),
    ensures
        r.len() == 12,
        0 <= i < 8 && bad[i] <= good[i] ==> r[i] == bad[i],
        0 <= i < 8 && good[i] <= bad[i] ==> r[i] == good[i],
        8 <= i < 12 ==> r[i] == bad[i],
{
}

/// What the seven probes ask of the answers. The bounds are the bits of 0.70, 0.30 and 0.55.
pub proof fn law_probes(
    p: Probe,
    answers: Seq<Answer>,
    margin: Option<u32>,
    i: int,
)
    requires
        is_probe(p, answers, margin, i),
        0 <= i < 7,
    ensures
        p.feats == QUESTIONS@[i],
        i == 0 ==> p.name@ == "tam eşleşme + otoriter"@ && p.expect@ == "skor > 0.70"@,
        i == 1 ==> p.name@ == "tamamen alakasız"@ && p.expect@ == "skor < 0.30"@,
        i == 2 ==> p.name@ == "eşleşme var, kaynak zayıf"@,
        i == 3 ==> p.name@ == "zayıf eşleşme, otoriter kaynak"@ && p.expect@ == "skor < 0.55"@,
        i == 4 ==> p.name@ == "2. halka cezası"@,
        i == 5 ==> p.name@ == "monotonluk: sayfa-metni artışı"@,
        i == 6 ==> p.name@ == "BERKCAN AYRIMI: özbalci > ozan"@,
        i != 6 ==> p.output.bits == answers[i].rounded.bits && p.output.text@
            == answers[i].rounded.text@,
        i == 6 ==> p.output.bits == answers[10].rounded.bits && p.output.text@
            == answers[10].rounded.text@,
        i == 0 ==> (p.pass <==> above(answers[0].raw.bits, Some(0x3F333333))),
        i == 1 ==> (p.pass <==> above(Some(0x3E99999A), answers[1].raw.bits)),
        i == 2 ==> (p.pass <==> above(answers[2].rounded.bits, Some(0x3E99999A)) && above(
            answers[0].rounded.bits,
            answers[2].rounded.bits,
        )),
        i == 3 ==> (p.pass <==> above(Some(0x3F0CCCCD), answers[3].raw.bits)),
        i == 4 ==> (p.pass <==> above(answers[7].raw.bits, answers[4].raw.bits)),
        i == 5 ==> (p.pass <==> above(answers[5].raw.bits, answers[8].raw.bits)),
        i == 6 ==> (p.pass <==> above(answers[10].raw.bits, margin)),
        i == 2 ==> p.expect@ == "zayıf "@ + answers[2].rounded.text@ + " < tam "@
            + answers[0].rounded.text@,
        i == 4 ==> p.expect@ == "derin "@ + answers[4].raw.text@ + " < sığ "@ + answers[7].raw.text@,
        i == 5 ==> p.expect@ == "iyi "@ + answers[5].raw.text@ + " > kötü "@ + answers[8].raw.text@,
        i == 6 ==> p.expect@ == "özbalci "@ + answers[10].raw.text@ + " > ozan "@
            + answers[9].raw.text@ + " + marj"@,
{
}

/// A number is above another where both are numbers and it is larger.
pub proof fn law_above(a: u32, b: u32, n: Option<u32>)
    ensures
        above(Some(a), Some(b)) <==> a > b,
        !above(None, n),
        !above(n, None),
{
}

/// The probes that are passed are counted one by one.
pub proof fn law_passes(a: Seq<Probe>, b: Seq<Probe>)
    ensures
        passes(a + b) == passes(a) + passes(b),
        a.len() == 0 ==> passes(a) == 0,
        a.len() == 1 ==> passes(a) == if a[0].pass {
            1nat
        } else {
            0nat
        },
    decreases b.len(),
{
    reveal_with_fuel(passes, 2);
    if b.len() == 0 {
        assert(a + b =~= a);
    } else {
        assert((a + b).drop_last() =~= a + b.drop_last());
        law_passes(a, b.drop_last());
    }
}

/// The key in a text is all of it but the white space around it; a text of white space holds none.
pub proof fn law_key_in(a: Seq<char>, key: Seq<char>, b: Seq<char>, t: String)
    requires
        forall|i: int| 0 <= i < a.len() ==> white(#[trigger] a[i]),
        forall|i: int| 0 <= i < b.len() ==> white(#[trigger] b[i]),
        key.len() > 0 ==> !white(key[0]) && !white(key[key.len() - 1]),
    ensures
        key.len() > 0 ==> key_in(Some(a + key + b)) == Some(key),
        key.len() == 0 ==> key_in(Some(a + key + b)) is None,
        key_in(None) is None,
        opt(Some(t)) == Some(t@),
        opt(None) is None,
{
    law_trimmed(a, key, b);
}

/// Every service has a key file of its own, the model's in the application's data and any other
/// beside the program.
pub proof fn law_key_files(a: Seq<char>, b: Seq<char>)
    ensures
        file_of(a) == a + "-key.txt"@,
        file_of(a) == file_of(b) ==> a == b,
        place_of(a) == Place::Appdata <==> a == "nim"@,
        place_of(a) == Place::BesideProgram <==> a != "nim"@,
{
    if file_of(a) == file_of(b) {
        assert(file_of(a).take(a.len() as int) =~= a);
        assert(file_of(b).take(b.len() as int) =~= b);
        assert(file_of(a).len() == a.len() + "-key.txt"@.len());
    }
}

/// The application's data lie in the base that the system names, or in the directory for temporary
/// files.
pub proof fn law_appdata(base: Seq<char>, temporary: Seq<char>)
    ensures
        appdata_of(true, Some(base), temporary) == seq![base, "NoralWeb"@],
        appdata_of(true, None, temporary) == seq![temporary, "NoralWeb"@],
        appdata_of(false, Some(base), temporary) == seq![base, ".config"@, "NoralWeb"@],
        appdata_of(false, None, temporary) == seq![temporary, ".config"@, "NoralWeb"@],
{
}

/// Lanes stand for their services and variables; there are seven.
pub proof fn law_lanes(v: Seq<Lane>)
    ensures
        lane_views(v).len() == v.len(),
        forall|i: int|
            0 <= i < v.len() ==> #[trigger] lane_views(v)[i] == (v[i].service@, v[i].variable@),
        lane_table().len() == 7,
        lane_table()[6] == ("nim"@, "NIM_KEY"@),
{
}

/// The paid lane is used as asked for, but never above two, and once where nothing was said. A
/// conversation looks for people only where just that was asked for.
pub proof fn law_plans(n: u8, mode: Seq<char>)
    ensures
        n <= 2 ==> lane_level(Some(n)) == n,
        n > 2 ==> lane_level(Some(n)) == 2,
        lane_level(None) == 1,
        mode_of(Some("osint"@)) == "osint"@,
        mode != "osint"@ ==> mode_of(Some(mode)) == "arastirma"@,
        mode_of(None) == "arastirma"@,
{
}

} // verus!
