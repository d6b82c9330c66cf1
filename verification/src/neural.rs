//! The integer side of the ranking network: its shape, its starting weights, the order in which
//! it learns, and what it learns from.

use vstd::prelude::*;
use vstd::arithmetic::div_mod::{lemma_fundamental_div_mod, lemma_fundamental_div_mod_converse};

verus! {

/// How many features a candidate has.
pub const N_IN: usize = 12;

/// The size of the first hidden layer.
pub const H1: usize = 48;

/// The size of the second hidden layer.
pub const H2: usize = 28;

/// How many parameters the network has, those that lead straight from the features to the output
/// counted.
pub const N_PARAMS: usize = N_IN * H1 + H1 + H1 * H2 + H2 + H2 + 1 + N_IN;

/// How many features are continuous; they come first.
pub const N_CONTINUOUS: usize = 8;

/// How often the built-in preferences are gone through.
pub const BASE_EPOCHS: u32 = 10000;

/// Where the shuffling generator starts.
pub const SHUFFLE_SEED: u64 = 0x9E3779B97F4A7C15;

/// The built-in preferences: the first of two candidates is better than the second. Features are
/// in hundredths.
pub const BASE_PAIRS: [([u8; 12], [u8; 12]); 36] = [
    ([90, 85, 90, 100, 70, 85, 80, 100, 100, 100, 100, 80], [10, 5, 60, 0, 80, 5, 5, 100, 0, 0, 0, 0]),
    ([80, 70, 70, 80, 60, 70, 65, 100, 0, 100, 100, 0], [20, 10, 90, 0, 50, 10, 5, 100, 0, 0, 0, 0]),
    ([65, 60, 75, 100, 70, 60, 55, 100, 100, 100, 100, 80], [70, 65, 80, 0, 70, 65, 60, 100, 0, 0, 0, 0]),
    ([50, 45, 80, 50, 90, 45, 40, 100, 0, 0, 50, 0], [50, 45, 80, 50, 20, 45, 40, 100, 0, 0, 50, 0]),
    ([95, 90, 100, 100, 85, 90, 90, 100, 100, 100, 100, 100], [0, 0, 50, 0, 90, 0, 0, 100, 0, 0, 0, 0]),
    ([75, 80, 60, 70, 60, 75, 70, 100, 0, 100, 100, 0], [30, 25, 80, 30, 60, 25, 20, 100, 0, 0, 50, 0]),
    ([65, 60, 85, 70, 75, 60, 55, 100, 0, 100, 100, 0], [60, 58, 80, 20, 70, 58, 50, 100, 0, 0, 50, 0]),
    ([85, 65, 80, 90, 60, 55, 50, 100, 100, 100, 100, 80], [50, 65, 80, 30, 60, 80, 75, 100, 0, 0, 50, 0]),
    ([55, 50, 70, 60, 80, 50, 45, 100, 0, 100, 100, 0], [5, 2, 70, 0, 85, 2, 0, 100, 0, 0, 0, 0]),
    ([35, 30, 70, 30, 70, 30, 25, 100, 0, 0, 50, 0], [2, 0, 50, 0, 90, 0, 0, 100, 0, 0, 0, 0]),
    ([55, 50, 75, 45, 60, 50, 45, 100, 0, 0, 50, 0], [5, 3, 75, 10, 50, 3, 0, 100, 0, 0, 50, 0]),
    ([62, 50, 70, 50, 60, 50, 90, 100, 0, 0, 50, 0], [60, 55, 75, 55, 65, 55, 5, 100, 0, 0, 50, 0]),
    ([60, 55, 70, 55, 65, 55, 50, 100, 0, 0, 50, 0], [60, 55, 70, 55, 65, 55, 50, 40, 0, 0, 50, 0]),
    ([50, 50, 70, 50, 60, 90, 45, 100, 0, 0, 100, 0], [50, 50, 70, 50, 60, 10, 45, 100, 0, 0, 0, 0]),
    ([60, 55, 80, 90, 60, 55, 20, 100, 100, 100, 100, 100], [55, 50, 75, 30, 60, 50, 85, 100, 0, 0, 50, 0]),
    ([70, 65, 75, 65, 60, 65, 60, 100, 0, 100, 50, 0], [70, 65, 75, 65, 60, 65, 60, 20, 0, 100, 50, 0]),
    ([57, 45, 60, 45, 55, 45, 40, 100, 0, 0, 50, 0], [55, 50, 65, 50, 60, 50, 45, 20, 0, 0, 50, 0]),
    ([85, 80, 90, 100, 75, 85, 70, 100, 100, 100, 100, 100], [80, 75, 85, 50, 75, 80, 65, 100, 0, 0, 50, 0]),
    ([70, 65, 80, 60, 70, 60, 50, 100, 0, 100, 50, 100], [68, 63, 85, 90, 70, 65, 55, 100, 0, 100, 50, 0]),
    ([75, 60, 70, 55, 60, 55, 50, 100, 100, 0, 100, 0], [70, 65, 75, 80, 60, 65, 60, 100, 0, 100, 50, 0]),
    ([65, 60, 80, 50, 60, 60, 55, 100, 0, 100, 50, 0], [65, 60, 85, 50, 60, 60, 55, 100, 0, 0, 50, 0]),
    ([70, 65, 85, 70, 65, 65, 60, 100, 100, 70, 100, 100], [72, 67, 85, 75, 65, 67, 62, 100, 0, 0, 50, 0]),
    ([60, 55, 90, 55, 60, 55, 50, 100, 0, 0, 50, 0], [58, 53, 60, 55, 60, 53, 50, 40, 0, 0, 50, 0]),
    ([55, 50, 70, 40, 60, 85, 90, 100, 0, 0, 50, 0], [60, 55, 75, 70, 60, 50, 20, 100, 0, 0, 50, 0]),
    ([50, 45, 70, 50, 95, 45, 40, 100, 0, 0, 50, 0], [50, 45, 70, 50, 30, 45, 40, 100, 0, 0, 50, 0]),
    ([60, 55, 70, 60, 60, 55, 50, 100, 0, 0, 100, 0], [62, 57, 72, 60, 60, 57, 52, 100, 0, 0, 50, 0]),
    ([75, 70, 85, 70, 65, 70, 60, 100, 0, 100, 50, 100], [77, 72, 87, 85, 65, 72, 62, 100, 0, 0, 50, 0]),
    ([65, 60, 80, 60, 60, 60, 55, 100, 0, 0, 50, 0], [65, 60, 80, 60, 60, 60, 55, 20, 0, 0, 50, 0]),
    ([60, 55, 100, 55, 60, 55, 50, 100, 100, 0, 100, 0], [62, 57, 60, 60, 60, 57, 52, 100, 0, 0, 50, 0]),
    ([90, 85, 95, 100, 80, 85, 80, 100, 100, 100, 100, 100], [88, 83, 97, 90, 80, 83, 78, 100, 0, 100, 50, 0]),
    ([65, 60, 75, 60, 60, 60, 55, 100, 0, 100, 50, 0], [35, 30, 65, 35, 55, 30, 25, 100, 100, 0, 30, 0]),
    ([60, 55, 70, 55, 60, 55, 50, 100, 0, 0, 50, 0], [40, 35, 60, 40, 55, 35, 30, 100, 100, 0, 30, 0]),
    ([55, 50, 70, 50, 60, 50, 45, 100, 0, 100, 50, 100], [45, 40, 65, 45, 55, 40, 35, 100, 100, 0, 30, 0]),
    ([80, 75, 85, 70, 70, 70, 65, 100, 0, 0, 50, 0], [40, 35, 70, 40, 55, 30, 25, 100, 0, 100, 50, 0]),
    ([75, 70, 80, 65, 65, 65, 60, 100, 0, 0, 50, 0], [35, 30, 65, 35, 50, 25, 20, 100, 0, 0, 50, 100]),
    ([70, 65, 80, 60, 65, 60, 55, 100, 0, 0, 30, 0], [35, 30, 65, 35, 50, 25, 20, 100, 0, 0, 100, 0]),
];

/// Which model a report was made with.
#[derive(Debug, Clone, Copy, PartialEq, Eq, Structural)]
pub struct ModelInfo {
    pub version: u32,
    pub clicks: u32,
    pub trained: bool,
}

/// The number that follows `x` in the shuffling generator.
pub open spec fn lcg(x: u64) -> u64 {
    ((x * 6364136223846793005 + 1442695040888963407) % 0x1_0000_0000_0000_0000) as u64
}

/// The number that follows `x` in the shuffling generator.
pub fn next_random(x: u64) -> (r: u64)
    ensures
        r == lcg(x),
{
    let y: u64 = x.wrapping_mul(6364136223846793005);
    let r: u64 = y.wrapping_add(1442695040888963407);
    proof {
        let p: int = x * 6364136223846793005;
        let m: int = 0x1_0000_0000_0000_0000;
        let c: int = 1442695040888963407;
        lemma_fundamental_div_mod(p, m);
        let q = p / m;
        assert(y == p % m);
        let s: int = if y + c >= m { 1 } else { 0 };
        assert(p + c == (q + s) * m + r) by {
            assert((q + s) * m == q * m + s * m) by (nonlinear_arith);
            assert(q * m == m * q) by (nonlinear_arith);
        }
        lemma_fundamental_div_mod_converse(p + c, m, q + s, r as int);
    }
    r
}

/// Which of the places `0..=i` the number `x` picks.
pub open spec fn pick(x: u64, i: int) -> int {
    (x as int / 0x2_0000_0000) % (i + 1)
}

/// A list with two of its items exchanged.
pub open spec fn exchanged(s: Seq<usize>, i: int, j: int) -> Seq<usize> {
    s.update(i, s[j]).update(j, s[i])
}

/// What shuffling makes of the places `0..=i` of a list, and where it leaves the generator: from
/// the last place down, each item is exchanged with one that stands no later.
pub open spec fn shuffled(s: Seq<usize>, x: u64, i: int) -> (Seq<usize>, u64)
    decreases i,
{
    if i <= 0 {
        (s, x)
    } else {
        shuffled(exchanged(s, i, pick(lcg(x), i)), lcg(x), i - 1)
    }
}

/// Shuffles a list. The same list and the same state of the generator always give the same
/// result. Returns the new state of the generator.
pub fn shuffle(list: &mut Vec<usize>, x: u64) -> (r: u64)
    ensures
        (final(list)@, r) == shuffled(old(list)@, x, old(list)@.len() - 1),
{
    let mut state: u64 = x;
    if list.len() == 0 {
        return state;
    }
    let mut i: usize = list.len() - 1;
    while i > 0
        invariant
            i < list.len(),
            list@.len() == old(list)@.len(),
            shuffled(list@, state, i as int) == shuffled(old(list)@, x, old(list)@.len() - 1),
        decreases i,
    {
        state = next_random(state);
        let high: u64 = state >> 33;
        proof {
            assert(state >> 33 == state / 0x2_0000_0000) by (bit_vector);
            assert(state / 0x2_0000_0000 < 0x8000_0000) by (bit_vector);
        }
        let j: usize = high as usize % (i + 1);
        let a: usize = list[i];
        let b: usize = list[j];
        list.set(i, b);
        list.set(j, a);
        i = i - 1;
    }
    state
}

/// The numbers below `n`, in order.
pub open spec fn counted(n: nat) -> Seq<usize> {
    Seq::new(n, |i: int| i as usize)
}

/// The order in which the lessons are first gone through.
pub fn first_pass(n: usize) -> (r: Vec<usize>)
    ensures
        r@ == counted(n as nat),
{
    let mut out: Vec<usize> = Vec::new();
    let mut i: usize = 0;
    while i < n
        invariant
            i <= n,
            out@ =~= counted(i as nat),
        decreases n - i,
    {
        out.push(i);
        i = i + 1;
    }
    out
}

/// Whether a list holds each number below `n` exactly once.
pub open spec fn lists_once(s: Seq<usize>, n: nat) -> bool {
    &&& s.len() == n
    &&& s.no_duplicates()
    &&& forall|i: int| 0 <= i < n ==> #[trigger] s[i] < n
}

/// The first pass goes through every lesson once.
pub proof fn law_first_pass_is_complete(n: usize)
    ensures
        lists_once(counted(n as nat), n as nat),
{
}

/// Shuffling loses no lesson and repeats none: whatever pass comes after, it goes through every
/// lesson once.
pub proof fn law_shuffling_keeps_all(s: Seq<usize>, x: u64, i: int, n: nat)
    requires
        lists_once(s, n),
        i < n,
    ensures
        lists_once(shuffled(s, x, i).0, n),
    decreases i,
{
    if i > 0 {
        let j = pick(lcg(x), i);
        assert(0 <= j <= i) by (nonlinear_arith)
            requires
                i > 0,
                j == (lcg(x) as int / 0x2_0000_0000) % (i + 1),
        ;
        let t = exchanged(s, i, j);
        assert(lists_once(t, n));
        law_shuffling_keeps_all(t, lcg(x), i - 1, n);
    }
}

/// The starting weight between feature `i` and the unit `h` of the first layer, before it is
/// scaled.
pub open spec fn seed1(i: int, h: int) -> int {
    (i * 31 + h * 17 + 7) % 23
}

/// The starting weight between the unit `k` of the first layer and the unit `h` of the second,
/// before it is scaled.
pub open spec fn seed2(k: int, h: int) -> int {
    (k * 19 + h * 23 + 5) % 19
}

/// The starting weights of the first layer, before they are scaled: those of one feature stand
/// together.
pub fn first_layer_seeds() -> (r: Vec<u8>)
    ensures
        r@.len() == N_IN * H1,
        forall|i: int, h: int|
            0 <= i < N_IN && 0 <= h < H1 ==> #[trigger] r@[i * H1 + h] == #[trigger] seed1(i, h),
{
    let mut out: Vec<u8> = Vec::new();
    let mut n: usize = 0;
    while n < N_IN * H1
        invariant
            n <= N_IN * H1,
            out@.len() == n,
            forall|m: int| 0 <= m < n ==> #[trigger] out@[m] == seed1(m / 48, m % 48),
        decreases N_IN * H1 - n,
    {
        let i: usize = n / 48;
        let h: usize = n % 48;
        out.push(((i * 31 + h * 17 + 7) % 23) as u8);
        n = n + 1;
    }
    proof {
        assert forall|i: int, h: int| 0 <= i < N_IN && 0 <= h < H1 implies #[trigger] out@[i * H1
            + h] == #[trigger] seed1(i, h) by {
            let m = i * H1 + h;
            assert(m / 48 == i && m % 48 == h && 0 <= m < N_IN * H1);
        }
    }
    out
}

/// The starting weights of the second layer, before they are scaled: those of one unit of the
/// first layer stand together.
pub fn second_layer_seeds() -> (r: Vec<u8>)
    ensures
        r@.len() == H1 * H2,
        forall|k: int, h: int|
            0 <= k < H1 && 0 <= h < H2 ==> #[trigger] r@[k * H2 + h] == #[trigger] seed2(k, h),
{
    let mut out: Vec<u8> = Vec::new();
    let mut n: usize = 0;
    while n < H1 * H2
        invariant
            n <= H1 * H2,
            out@.len() == n,
            forall|m: int| 0 <= m < n ==> #[trigger] out@[m] == seed2(m / 28, m % 28),
        decreases H1 * H2 - n,
    {
        let k: usize = n / 28;
        let h: usize = n % 28;
        out.push(((k * 19 + h * 23 + 5) % 19) as u8);
        n = n + 1;
    }
    proof {
        assert forall|k: int, h: int| 0 <= k < H1 && 0 <= h < H2 implies #[trigger] out@[k * H2
            + h] == #[trigger] seed2(k, h) by {
            let m = k * H2 + h;
            assert(m / 28 == k && m % 28 == h && 0 <= m < H1 * H2);
        }
    }
    out
}

/// Whether a stored network has the shape of this one, by the sizes of its first layer's
/// weights, its second layer's weights and its first layer's offsets.
pub fn fits(w1: usize, w2: usize, b1: usize) -> (r: bool)
    ensures
        r == (w1 == N_IN * H1 && w2 == H1 * H2 && b1 == H1),
{
    w1 == N_IN * H1 && w2 == H1 * H2 && b1 == H1
}

/// The lessons of a click: what was clicked is better than each of the first three results that
/// were passed over for it.
pub fn click_lessons<T: Copy>(clicked: T, skipped: &Vec<T>) -> (r: Vec<(T, T)>)
    ensures
        r@ == Seq::new(
            if skipped@.len() < 3 {
                skipped@.len()
            } else {
                3
            },
            |i: int| (clicked, skipped@[i]),
        ),
{
    let n: usize = if skipped.len() < 3 { skipped.len() } else { 3 };
    let mut out: Vec<(T, T)> = Vec::new();
    let mut i: usize = 0;
    while i < n
        invariant
            i <= n <= skipped@.len(),
            out@ =~= Seq::new(i as nat, |k: int| (clicked, skipped@[k])),
        decreases n - i,
    {
        out.push((clicked, skipped[i]));
        i = i + 1;
    }
    out
}

impl ModelInfo {
    /// The model after one more click.
    pub fn clicked(self) -> (r: ModelInfo)
        requires
            self.clicks < u32::MAX,
        ensures
            r == (ModelInfo { clicks: (self.clicks + 1) as u32, ..self }),
    {
        ModelInfo { version: self.version, clicks: self.clicks + 1, trained: self.trained }
    }
}

/// What is left of the worse candidate's features as a lesson: on the continuous features it
/// never outdoes the better one, so that only the others can teach a trade-off.
pub open spec fn is_levelled(r: Seq<u8>, good: Seq<u8>, bad: Seq<u8>) -> bool {
    &&& r.len() == N_IN
    &&& forall|i: int|
        0 <= i < N_CONTINUOUS ==> #[trigger] r[i] == if bad[i] < good[i] {
            bad[i]
        } else {
            good[i]
        }
    &&& forall|i: int| N_CONTINUOUS <= i < N_IN ==> #[trigger] r[i] == bad[i]
}

/// The worse candidate of a lesson, brought down to the better one on the continuous features.
pub fn level(good: &[u8; 12], bad: &[u8; 12]) -> (r: [u8; 12])
    ensures
        is_levelled(r@, good@, bad@),
{
    let mut out: [u8; 12] = *bad;
    let mut i: usize = 0;
    while i < N_CONTINUOUS
        invariant
            i <= N_CONTINUOUS,
            forall|k: int|
                0 <= k < i ==> #[trigger] out@[k] == if bad@[k] < good@[k] {
                    bad@[k]
                } else {
                    good@[k]
                },
            forall|k: int| i <= k < N_IN ==> #[trigger] out@[k] == bad@[k],
        decreases N_CONTINUOUS - i,
    {
        if good[i] < bad[i] {
            out[i] = good[i];
        }
        i = i + 1;
    }
    out
}

/// In a lesson the worse candidate never outdoes the better one on a continuous feature, and a
/// second levelling changes nothing.
pub proof fn law_lessons_are_level(r: Seq<u8>, good: Seq<u8>, bad: Seq<u8>)
    requires
        is_levelled(r, good, bad),
    ensures
        forall|i: int| 0 <= i < N_CONTINUOUS ==> #[trigger] r[i] <= good[i],
        is_levelled(r, good, r),
{
}

/// Preferences as lessons: each worse candidate is brought down to its better one.
pub fn lessons(pairs: &[([u8; 12], [u8; 12])]) -> (r: Vec<([u8; 12], [u8; 12])>)
    ensures
        r@.len() == pairs@.len(),
        forall|i: int|
            0 <= i < r@.len() ==> (#[trigger] r@[i]).0 == pairs@[i].0 && is_levelled(
                r@[i].1@,
                pairs@[i].0@,
                pairs@[i].1@,
            ),
{
    let mut out: Vec<([u8; 12], [u8; 12])> = Vec::new();
    let mut i: usize = 0;
    while i < pairs.len()
        invariant
            i <= pairs@.len(),
            out@.len() == i,
            forall|k: int|
                0 <= k < i ==> (#[trigger] out@[k]).0 == pairs@[k].0 && is_levelled(
                    out@[k].1@,
                    pairs@[k].0@,
                    pairs@[k].1@,
                ),
        decreases pairs@.len() - i,
    {
        out.push((pairs[i].0, level(&pairs[i].0, &pairs[i].1)));
        i = i + 1;
    }
    out
}

} // verus!
