//! A small pseudo-random core: a xorshift* generator with a 64-bit state,
//! an unbiased range sampler built on rejection sampling, and an in-place
//! Fisher-Yates shuffle.
//!
//! The generator state is owned explicitly by the caller: construct one
//! instance per thread of work, either from an explicit seed (`XorShiftRng::new`)
//! or from the system clock (`XorShiftRng::from_clock`), and pass it by
//! mutable reference to `rand` and `random_in_range`.

use vstd::prelude::*;

verus! {

use vstd::string::StringExecFns;

use crate::vecs::lemma_swap_preserves_multiset;
use crate::vecs::spec_swapped;
use crate::vecs::vec_swap;

/// The fixed odd multiplier of the xorshift* output scrambler.
pub const MULTIPLIER: u64 = 0x2545F4914F6CDD1D;

/// The seed used in place of zero, which is a fixed point of the xorshift
/// transform and would make the generator return zero forever.
pub const FALLBACK_SEED: u64 = 1;

/// One xorshift step: the three shift-xor rounds (12 right, 25 left,
/// 27 right) that advance the generator state.
pub open spec fn xorshift_step(x: u64) -> u64 {
    let a = x ^ (x >> 12u64);
    let b = a ^ (a << 25u64);
    b ^ (b >> 27u64)
}

/// The value returned by one draw from state `x`: the advanced state,
/// scrambled by a wraparound multiplication with `MULTIPLIER`.
pub open spec fn xorshift_out(x: u64) -> u64 {
    xorshift_step(x).wrapping_mul(MULTIPLIER)
}

/// The state after `n` draws from `seed`.
pub open spec fn nth_state(seed: u64, n: nat) -> u64
    decreases n,
{
    if n == 0 {
        seed
    } else {
        xorshift_step(nth_state(seed, (n - 1) as nat))
    }
}

/// The value returned by the `n`-th draw (counting from zero) from `seed`.
pub open spec fn nth_output(seed: u64, n: nat) -> u64 {
    xorshift_out(nth_state(seed, n))
}

/// A simple, fast pseudo-random number generator using the xorshift*
/// algorithm. Its entire internal state is a single non-zero 64-bit integer.
pub struct XorShiftRng {
    state: u64,
}

impl View for XorShiftRng {
    type V = u64;

    closed spec fn view(&self) -> u64 {
        self.state
    }
}

impl XorShiftRng {
    /// Creates a generator from an explicit seed; a zero seed is replaced
    /// by `FALLBACK_SEED`, since zero is absorbing under the transform.
    pub fn new(seed: u64) -> (rng: XorShiftRng)
        ensures
            rng@ == if seed == 0 { FALLBACK_SEED } else { seed },
            rng@ != 0,
    {
        if seed == 0 {
            XorShiftRng { state: FALLBACK_SEED }
        } else {
            XorShiftRng { state: seed }
        }
    }

    /// Creates a generator seeded from the system clock.
    pub fn from_clock() -> (rng: XorShiftRng)
        ensures
            rng@ != 0,
    {
        XorShiftRng::new(get_seed())
    }

    /// Generates the next random `u64` in the sequence, advancing the state
    /// by one xorshift step.
    pub fn generate(&mut self) -> (r: u64)
        ensures
            final(self)@ == xorshift_step(old(self)@),
            r == xorshift_out(old(self)@),
    {
        let mut x = self.state;
        x = x ^ (x >> 12u64);
        x = x ^ (x << 25u64);
        x = x ^ (x >> 27u64);
        self.state = x;
        x.wrapping_mul(MULTIPLIER)
    }
}

/// Relies on `std::time::SystemTime::now` and `duration_since`: the number
/// of nanoseconds since the Unix epoch, or 0 if the clock reads earlier
/// than the epoch. Nothing is promised of the result.
#[verifier::external_body]
fn clock_nanos() -> u64 {
    match std::time::SystemTime::now().duration_since(std::time::UNIX_EPOCH) {
        Ok(d) => d.as_nanos() as u64,
        Err(_) => 0,
    }
}

/// Provides a non-zero seed based on the system's high-resolution clock.
pub fn get_seed() -> (s: u64)
    ensures
        s != 0,
{
    let nanos = clock_nanos();
    if nanos == 0 {
        FALLBACK_SEED
    } else {
        nanos
    }
}

/// Draws the next raw random value from the given generator.
pub fn rand(rng: &mut XorShiftRng) -> (r: u64)
    ensures
        final(rng)@ == xorshift_step(old(rng)@),
        r == xorshift_out(old(rng)@),
{
    rng.generate()
}

/// The number of rejected draws after which `random_in_range` falls back
/// to one final, potentially biased draw, so that it always terminates.
pub const MAX_RETRIES: u32 = 100;

/// The error returned by `random_in_range` when `min > max`; it carries
/// both bounds.
#[derive(Debug, Clone, Copy, PartialEq, Eq, Structural)]
pub struct InvalidRange {
    pub min: u64,
    pub max: u64,
}

impl InvalidRange {
    /// A diagnostic message naming both offending bounds.
    pub fn message(&self) -> (r: String)
        ensures
            r@ == "min ("@ + crate::strings::spec_u64_to_chars(self.min)
                + ") must be less than or equal to max ("@ + crate::strings::spec_u64_to_chars(
                self.max,
            ) + ")"@,
    {
        let mut s = String::from_str("min (");
        s.append(crate::strings::u64_to_string(self.min).as_str());
        s.append(") must be less than or equal to max (");
        s.append(crate::strings::u64_to_string(self.max).as_str());
        s.append(")");
        s
    }
}

/// The number of values in the inclusive range `[min, max]`, computed with
/// wraparound arithmetic: the full-width range `[0, u64::MAX]` yields 0.
pub open spec fn spec_range_size(min: u64, max: u64) -> u64 {
    max.wrapping_sub(min).wrapping_add(1)
}

/// The largest multiple of `range_size` that fits in a `u64`. Draws at or
/// above this threshold would map unevenly onto the target range.
pub open spec fn spec_threshold(range_size: u64) -> u64
    recommends
        range_size != 0,
{
    ((u64::MAX as int / range_size as int) * range_size as int) as u64
}

/// The state and accepted value of rejection sampling: starting from
/// `state`, draw until a value below `threshold` appears, or until `tries`
/// conditional draws have been rejected, in which case one final draw is
/// accepted unconditionally. Returns the pair (state after the last draw,
/// accepted raw value).
pub open spec fn spec_sample(state: u64, threshold: u64, tries: nat) -> (u64, u64)
    decreases tries,
{
    if tries == 0 || xorshift_out(state) < threshold {
        (xorshift_step(state), xorshift_out(state))
    } else {
        spec_sample(xorshift_step(state), threshold, (tries - 1) as nat)
    }
}

/// Generates a random integer within the inclusive range `[min, max]`,
/// free of modulo bias up to the bounded-retry fallback.
///
/// Fails with `InvalidRange`, and leaves the generator untouched, exactly
/// when `min > max`. On success the result lies in `[min, max]` and is a
/// deterministic function of the generator state: a raw value is accepted
/// by rejection sampling below `spec_threshold` and mapped into the range
/// by its remainder.
pub fn random_in_range(rng: &mut XorShiftRng, min: u64, max: u64) -> (r: Result<
    u64,
    InvalidRange,
>)
    ensures
        r is Err <==> min > max,
        r matches Err(e) ==> e == (InvalidRange { min, max }) && final(rng)@ == old(rng)@,
        r matches Ok(v) ==> min <= v <= max,
        min <= max && spec_range_size(min, max) == 0 ==> r == Ok::<u64, InvalidRange>(
            xorshift_out(old(rng)@),
        ) && final(rng)@ == xorshift_step(old(rng)@),
        min <= max && spec_range_size(min, max) != 0 ==> ({
            let rs = spec_range_size(min, max);
            let sv = spec_sample(old(rng)@, spec_threshold(rs), MAX_RETRIES as nat);
            r == Ok::<u64, InvalidRange>((min + sv.1 % rs) as u64) && final(rng)@ == sv.0
        }),
{
    if min > max {
        return Err(InvalidRange { min, max });
    }
    // The number of possible outcomes in [min, max]; wrapping to 0 signals
    // that the full u64 range was requested.
    let range_size = max.wrapping_sub(min).wrapping_add(1);
    if range_size == 0 {
        return Ok(rng.generate());
    }
    assert(max - min + 1 == range_size);
    proof {
        vstd::arithmetic::div_mod::lemma_fundamental_div_mod(u64::MAX as int, range_size as int);
        assert((u64::MAX as int / range_size as int) * range_size as int <= u64::MAX as int) by (nonlinear_arith)
            requires
                u64::MAX as int == range_size as int * (u64::MAX as int / range_size as int) + (
                u64::MAX as int % range_size as int),
                u64::MAX as int % range_size as int >= 0,
        ;
    }
    let threshold = (u64::MAX / range_size) * range_size;
    let mut i: u32 = 0;
    while i < MAX_RETRIES
        invariant
            0 != range_size,
            range_size == spec_range_size(min, max),
            min <= max,
            max - min + 1 == range_size,
            threshold == spec_threshold(range_size),
            i <= MAX_RETRIES,
            spec_sample(old(rng)@, threshold, MAX_RETRIES as nat) == spec_sample(
                rng@,
                threshold,
                (MAX_RETRIES - i) as nat,
            ),
        decreases MAX_RETRIES - i,
    {
        let value = rand(rng);
        // Values in the unbiased zone are used directly; this is the common path.
        if value < threshold {
            return Ok(min + value % range_size);
        }
        i = i + 1;
    }
    // Fallback after all retries were rejected (extremely unlikely): accept
    // one final draw, which may be slightly biased, to guarantee termination.
    let value = rand(rng);
    Ok(min + value % range_size)
}

/// One Fisher-Yates round at position `i >= 1`: a position `j` is drawn
/// uniformly from `[0, i]` through the rejection sampler, and the elements
/// at `i` and `j` are exchanged. Returns the pair (state after the draws,
/// sequence after the exchange).
pub open spec fn spec_shuffle_round<T>(state: u64, s: Seq<T>, i: int) -> (u64, Seq<T>)
    recommends
        1 <= i < s.len(),
{
    let bound = (i + 1) as u64;
    let sv = spec_sample(state, spec_threshold(bound), MAX_RETRIES as nat);
    let j = sv.1 as int % (i + 1);
    (sv.0, spec_swapped(s, i, j))
}

/// The Fisher-Yates rounds for positions `i` down to `1`.
pub open spec fn spec_shuffle_rounds<T>(state: u64, s: Seq<T>, i: int) -> (u64, Seq<T>)
    recommends
        i < s.len(),
    decreases i,
{
    if i < 1 {
        (state, s)
    } else {
        let round = spec_shuffle_round(state, s, i);
        spec_shuffle_rounds(round.0, round.1, i - 1)
    }
}

/// The generator state and the permuted sequence that shuffling `s` from
/// generator state `state` produces.
pub open spec fn spec_shuffle<T>(state: u64, s: Seq<T>) -> (u64, Seq<T>) {
    spec_shuffle_rounds(state, s, s.len() - 1)
}

/// The Fisher-Yates rounds preserve the multiset of the sequence, and its
/// length.
pub proof fn lemma_shuffle_rounds_preserve_multiset<T>(state: u64, s: Seq<T>, i: int)
    requires
        i < s.len(),
    ensures
        spec_shuffle_rounds(state, s, i).1.to_multiset() =~= s.to_multiset(),
        spec_shuffle_rounds(state, s, i).1.len() == s.len(),
    decreases i,
{
    broadcast use vstd::seq_lib::group_to_multiset_ensures;

    if i >= 1 {
        let round = spec_shuffle_round(state, s, i);
        let j = spec_sample(state, spec_threshold((i + 1) as u64), MAX_RETRIES as nat).1 as int % (
        i + 1);
        lemma_swap_preserves_multiset(s, i, j);
        lemma_shuffle_rounds_preserve_multiset(round.0, round.1, i - 1);
    }
}

/// A trait for shuffling collections in place with the modern Fisher-Yates
/// algorithm (Durstenfeld's variant), driven by an explicit generator.
pub trait Shuffle<T>: View<V = Seq<T>> {
    /// Shuffles the elements in place: positions are walked from the end
    /// to the beginning, and each is exchanged with a uniformly drawn
    /// earlier (or equal) position. No element is lost, duplicated or
    /// altered, and a sequence of length 0 or 1 is left unchanged.
    fn shuffle(&mut self, rng: &mut XorShiftRng)
        ensures
            final(self)@.to_multiset() == old(self)@.to_multiset(),
            final(self)@.len() == old(self)@.len(),
            old(self)@.len() <= 1 ==> final(self)@ == old(self)@,
            final(self)@ == spec_shuffle(old(rng)@, old(self)@).1,
            final(rng)@ == spec_shuffle(old(rng)@, old(self)@).0,
    ;
}

impl<T> Shuffle<T> for Vec<T> {
    fn shuffle(&mut self, rng: &mut XorShiftRng) {
        let len = self.len();
        // Walking only the positions above 1 handles lengths 0 and 1
        // gracefully: the loop body never runs for them.
        let mut i: usize = len;
        while i > 1
            invariant
                i <= len,
                len == self@.len(),
                spec_shuffle_rounds(rng@, self@, i - 1) == spec_shuffle(old(rng)@, old(self)@),
                self@.to_multiset() == old(self)@.to_multiset(),
            decreases i,
        {
            i = i - 1;
            let ghost pre_seq = self@;
            let ghost pre_state = rng@;
            let j = match random_in_range(rng, 0, i as u64) {
                Ok(j) => j,
                // `random_in_range(0, i)` fails only when `0 > i`.
                Err(_) => vstd::pervasive::unreached(),
            };
            vec_swap(self, i, j as usize);
            proof {
                lemma_swap_preserves_multiset(pre_seq, i as int, j as int);
                assert(spec_shuffle_round(pre_state, pre_seq, i as int) == (rng@, self@));
                assert(spec_shuffle_rounds(pre_state, pre_seq, i as int) == spec_shuffle_rounds(
                    rng@,
                    self@,
                    i - 1,
                ));
            }
        }
    }
}

/// One xorshift step of a non-zero state is again non-zero: the three
/// shift-xor rounds are invertible, and zero is the only state they map
/// to zero.
pub proof fn lemma_step_preserves_nonzero(x: u64)
    requires
        x != 0,
    ensures
        xorshift_step(x) != 0,
{
    assert(xorshift_step(x) != 0) by (bit_vector)
        requires
            x != 0,
    ;
}

/// A generator started from a non-zero seed never reaches the absorbing
/// zero state, however many values are drawn.
pub proof fn lemma_never_stuck_at_zero(seed: u64, n: nat)
    requires
        seed != 0,
    ensures
        nth_state(seed, n) != 0,
    decreases n,
{
    if n > 0 {
        lemma_never_stuck_at_zero(seed, (n - 1) as nat);
        lemma_step_preserves_nonzero(nth_state(seed, (n - 1) as nat));
    }
}

/// Determinism from the seed: two generators built from equal seeds return
/// equal values on every draw.
pub proof fn lemma_determinism(seed1: u64, seed2: u64, n: nat)
    requires
        seed1 == seed2,
    ensures
        nth_output(seed1, n) == nth_output(seed2, n),
        nth_state(seed1, n) == nth_state(seed2, n),
{
}

} // verus!
