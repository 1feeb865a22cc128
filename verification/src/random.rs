//! The source of randomness that sampling draws from.
//!
//! A [`RandomSource`] is made from a seed and handed to every function that
//! samples, so that a run can be repeated. Of a drawn number only its range
//! is known to the callers: what they prove holds for every outcome.

use vstd::prelude::*;
use rand::rngs::StdRng;
use rand::seq::SliceRandom;
use rand::Rng;
use rand::SeedableRng;
use crate::fixed::Fixed;
use crate::fixed::SCALE;

verus! {

/// `rand::rngs::StdRng`: a generator, carried along and never looked into.
#[verifier::external_type_specification]
#[verifier::external_body]
pub struct ExStdRng(rand::rngs::StdRng);

/// A seeded generator of pseudo-random numbers.
pub struct RandomSource {
    rng: StdRng,
}

/// `rand::SeedableRng::seed_from_u64` for `StdRng`: a generator whose
/// output is fixed by the seed. Nothing is claimed of the generator.
#[verifier::external_body]
fn seeded(seed: u64) -> StdRng {
    StdRng::seed_from_u64(seed)
}

/// `rand::Rng::gen_range` on `i64`: some number from `low` up to, not
/// including, `high`. The outside function panics unless `low < high`.
#[verifier::external_body]
fn draw_between(rng: &mut StdRng, low: i64, high: i64) -> (r: i64)
    requires
        low < high,
    ensures
        low <= r < high,
{
    rng.gen_range(low, high)
}

/// `rand::seq::SliceRandom::shuffle` on a slice of bytes: the bytes are
/// exchanged among themselves, so the same bytes are there afterwards, each
/// as often as before.
#[verifier::external_body]
fn shuffle_bytes(values: &mut Vec<u8>, rng: &mut StdRng)
    ensures
        final(values)@.to_multiset() == old(values)@.to_multiset(),
{
    values.as_mut_slice().shuffle(rng)
}

impl RandomSource {
    /// A source whose draws are fixed by `seed`.
    pub fn from_seed(seed: u64) -> (r: RandomSource) {
        RandomSource { rng: seeded(seed) }
    }

    /// An integer from `low` up to, not including, `high`.
    pub fn range(&mut self, low: i64, high: i64) -> (r: i64)
        requires
            low < high,
        ensures
            low <= r < high,
    {
        draw_between(&mut self.rng, low, high)
    }

    /// Reorders `values` at random: the result holds what `values` held.
    pub fn shuffle(&mut self, values: &mut Vec<u8>)
        ensures
            final(values)@.to_multiset() == old(values)@.to_multiset(),
            final(values)@.len() == old(values)@.len(),
    {
        let ghost before = values@;
        shuffle_bytes(values, &mut self.rng);
        proof {
            before.to_multiset_ensures();
            values@.to_multiset_ensures();
        }
    }
}

/// A number from zero up to, not including, one.
pub fn random_double(rng: &mut RandomSource) -> (r: Fixed)
    ensures
        0 <= r.raw < SCALE,
{
    Fixed { raw: rng.range(0, SCALE) }
}

/// A number from `min` up to, not including, `max`.
pub fn rand_with_range(rng: &mut RandomSource, min: Fixed, max: Fixed) -> (r: Fixed)
    requires
        min.raw < max.raw,
    ensures
        min.raw <= r.raw < max.raw,
{
    Fixed { raw: rng.range(min.raw, max.raw) }
}

} // verus!
