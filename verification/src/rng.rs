//! The seeded pseudo-random generator behind world generation, spawn
//! points, AI waypoints and powerup timing.
//!
//! The generator itself comes from the `rand` crate; the rest of the engine
//! only ever sees integers drawn from half-open ranges.

use vstd::prelude::*;

verus! {

#[verifier::external_type_specification]
#[verifier::external_body]
pub struct ExSmallRng(rand::rngs::SmallRng);

/// Relies on rand::SeedableRng::seed_from_u64: builds a generator whose
/// stream is a function of the seed alone.
#[verifier::external_body]
pub fn rng_from_seed(seed: u64) -> (r: rand::rngs::SmallRng) {
    <rand::rngs::SmallRng as rand::SeedableRng>::seed_from_u64(seed)
}

/// Relies on rand::Rng::random_range over `lo..hi` on `i64`: returns a value
/// in `[lo, hi)`; it panics only on an empty range, which the precondition
/// excludes.
#[verifier::external_body]
pub fn rng_range(rng: &mut rand::rngs::SmallRng, lo: i64, hi: i64) -> (r: i64)
    requires
        lo < hi,
    ensures
        lo <= r < hi,
{
    rand::Rng::random_range(rng, lo..hi)
}

/// A uniformly random wrapped angle.
pub fn random_angle(rng: &mut rand::rngs::SmallRng) -> (r: i64)
    ensures
        0 <= r < crate::math::FULL_TURN,
{
    rng_range(rng, 0, crate::math::FULL_TURN)
}

} // verus!
