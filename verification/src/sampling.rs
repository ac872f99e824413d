//! Input generation: batches of values drawn from a range with the xorshift
//! generator. The generator is deterministic, so what a batch holds is a
//! function of the generator's state, the range and the batch size.

use rand::distributions::Uniform;
use rand::{Rng, SeedableRng};
use rand_xorshift::XorShiftRng;
use vstd::prelude::*;

verus! {

/// The xorshift generator of `rand_xorshift`. Its fields are private, so to
/// the verifier a generator is an opaque value; `state_words` names what it
/// holds.
#[verifier::external_type_specification]
#[verifier::external_body]
pub struct ExXorShiftRng(XorShiftRng);

/// The four 32-bit words that a generator holds, in the order `x`, `y`, `z`,
/// `w`. They are all of its state.
pub uninterp spec fn state_words(rng: XorShiftRng) -> Seq<u32>;

/// The state words of the generator that `seed_from_u64` makes from `seed`.
pub uninterp spec fn seeded_words(seed: u64) -> Seq<u32>;

/// What `gen_range` does to a generator that holds `words`: the value it
/// returns for the half-open range from `low` to `high`, and the words it
/// leaves behind.
pub uninterp spec fn range_draw(words: Seq<u32>, low: u64, high: u64) -> (u64, Seq<u32>);

/// What sampling `Uniform::new_inclusive(low, high)` does to a generator
/// that holds `words`: the value returned and the words left behind.
pub uninterp spec fn closed_draw(words: Seq<u32>, low: u64, high: u64) -> (u64, Seq<u32>);

/// Calls `XorShiftRng::seed_from_u64`.
///
/// Trusted, not proved: the seed alone decides the state of the generator
/// that comes back. The crate expands the seed with a fixed recurrence and
/// reads the result in little-endian order, on every machine alike.
#[verifier::external_body]
fn from_seed_u64(seed: u64) -> (rng: XorShiftRng)
    ensures
        state_words(rng) == seeded_words(seed),
{
    XorShiftRng::seed_from_u64(seed)
}

/// Calls `Rng::gen_range` for `u64`, which panics unless `low < high`.
///
/// Trusted, not proved: the value lies in the half-open range, as the
/// method's documentation promises, and the value and the state afterwards
/// depend on nothing but the state before and the two bounds. The method
/// steps the generator and keeps the first output that its rejection test
/// accepts.
#[verifier::external_body]
fn gen_below(rng: &mut XorShiftRng, low: u64, high: u64) -> (v: u64)
    requires
        low < high,
    ensures
        low <= v < high,
        (v, state_words(*final(rng))) == range_draw(state_words(*old(rng)), low, high),
{
    rng.gen_range(low, high)
}

/// Calls `Rng::sample` with `Uniform::new_inclusive(low, high)`, which panics
/// unless `low <= high`.
///
/// Trusted, not proved: the value lies in the closed range, as the
/// documentation of `new_inclusive` promises, and the value and the state
/// afterwards depend on nothing but the state before and the two bounds.
#[verifier::external_body]
fn gen_through(rng: &mut XorShiftRng, low: u64, high: u64) -> (v: u64)
    requires
        low <= high,
    ensures
        low <= v <= high,
        (v, state_words(*final(rng))) == closed_draw(state_words(*old(rng)), low, high),
{
    rng.sample(Uniform::new_inclusive(low, high))
}

/// One draw from the closed range from `low` to `high` out of a generator
/// that holds `words`: the value and the words left behind. A range that
/// ends below the greatest 64-bit value is drawn from as the half-open range
/// that ends one higher.
pub open spec fn draw(words: Seq<u32>, low: u64, high: u64) -> (u64, Seq<u32>) {
    if high < u64::MAX {
        range_draw(words, low, (high + 1) as u64)
    } else {
        closed_draw(words, low, high)
    }
}

/// `n` draws in a row from the closed range from `low` to `high`: the values
/// in the order drawn, and the words left behind.
pub open spec fn draw_many(words: Seq<u32>, low: u64, high: u64, n: nat) -> (Seq<u64>, Seq<u32>)
    decreases n,
{
    if n == 0 {
        (Seq::empty(), words)
    } else {
        let (values, mid) = draw_many(words, low, high, (n - 1) as nat);
        let (v, rest) = draw(mid, low, high);
        (values.push(v), rest)
    }
}

/// A generator whose state is decided by `seed`.
pub fn seeded_rng(seed: u64) -> (rng: XorShiftRng)
    ensures
        state_words(rng) == seeded_words(seed),
{
    from_seed_u64(seed)
}

/// Draws one value from the closed range from `low` to `high`.
pub fn sample(rng: &mut XorShiftRng, low: u64, high: u64) -> (v: u64)
    requires
        low <= high,
    ensures
        low <= v <= high,
        (v, state_words(*final(rng))) == draw(state_words(*old(rng)), low, high),
{
    if high < u64::MAX {
        gen_below(rng, low, high + 1)
    } else {
        gen_through(rng, low, high)
    }
}

/// Draws a batch of `n` values from the closed range from `low` to `high`.
pub fn sample_batch(rng: &mut XorShiftRng, low: u64, high: u64, n: usize) -> (batch: Vec<u64>)
    requires
        low <= high,
    ensures
        batch@.len() == n,
        forall|i: int| 0 <= i < n ==> low <= #[trigger] batch@[i] <= high,
        (batch@, state_words(*final(rng))) == draw_many(
            state_words(*old(rng)),
            low,
            high,
            n as nat,
        ),
{
    let mut batch: Vec<u64> = if n <= (isize::MAX as usize) / 8 {
        Vec::with_capacity(n)
    } else {
        Vec::new()
    };
    let mut i: usize = 0;
    while i < n
        invariant
            i <= n,
            low <= high,
            batch@.len() == i,
            forall|j: int| 0 <= j < i ==> low <= #[trigger] batch@[j] <= high,
            (batch@, state_words(*rng)) == draw_many(state_words(*old(rng)), low, high, i as nat),
        decreases n - i,
    {
        let v = sample(rng, low, high);
        batch.push(v);
        i += 1;
    }
    batch
}

/// Generators in the same state yield the same batch and are left in the
/// same state, whatever the range and the size.
pub proof fn lemma_same_state_same_batch(
    first: XorShiftRng,
    second: XorShiftRng,
    low: u64,
    high: u64,
    n: nat,
)
    requires
        state_words(first) == state_words(second),
    ensures
        draw_many(state_words(first), low, high, n) == draw_many(
            state_words(second),
            low,
            high,
            n,
        ),
{
}

} // verus!
