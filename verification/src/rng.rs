//! An explicit, seedable source of uniform random draws.
//!
//! Weight initialization and dropout sampling consume uniform values in
//! [0, 1); callers pass a `RngSource` wherever draws are needed, so runs
//! are reproducible from the seed.

use vstd::prelude::*;
use crate::fx::FX_ONE;

verus! {

#[verifier::external_type_specification]
#[verifier::external_body]
pub struct ExStdRng(rand::rngs::StdRng);

/// A deterministic pseudo-random generator, built from a seed.
pub struct RngSource {
    inner: rand::rngs::StdRng,
}

/// Relies on `rand::SeedableRng::seed_from_u64` for `StdRng`: builds a
/// generator whose stream is determined by the seed.
#[verifier::external_body]
fn seeded_std_rng(seed: u64) -> (r: rand::rngs::StdRng) {
    <rand::rngs::StdRng as rand::SeedableRng>::seed_from_u64(seed)
}

/// Relies on `rand::Rng::gen_range`: every draw lies in the half-open
/// range it is given, here [0, FX_ONE).
#[verifier::external_body]
fn std_rng_draw(rng: &mut rand::rngs::StdRng) -> (r: i64)
    ensures
        0 <= r < FX_ONE,
{
    rand::Rng::gen_range(rng, 0i64..FX_ONE)
}

impl RngSource {
    /// Build a source whose draws are determined by the seed.
    pub fn new(seed: u64) -> (r: RngSource) {
        RngSource { inner: seeded_std_rng(seed) }
    }

    /// One uniform fixed-point draw in [0, 1), that is in [0, FX_ONE).
    pub fn next_unit(&mut self) -> (r: i64)
        ensures
            0 <= r < FX_ONE,
    {
        std_rng_draw(&mut self.inner)
    }
}

} // verus!
