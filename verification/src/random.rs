//! The random sampler of a worker.
//!
//! Each worker owns a generator of its own; nothing here is shared between
//! workers. What a generator returns is not predicted: the contracts state
//! only what holds of every draw.

use vstd::prelude::*;
use rand::rngs::SmallRng;
use rand::Rng;
use rand::SeedableRng;

verus! {

/// `rand::rngs::SmallRng`, a small fast generator whose state is not looked
/// into here.
#[verifier::external_type_specification]
#[verifier::external_body]
pub struct ExSmallRng(SmallRng);

/// The generator type of the samplers.
pub type RandGenerator = SmallRng;

/// A fresh generator, seeded by the operating system.
///
/// Wraps `SmallRng::from_entropy`. Nothing is stated of the generator: two
/// calls give unrelated generators.
#[verifier::external_body]
pub fn create_rand_generator() -> RandGenerator {
    SmallRng::from_entropy()
}

/// A random integer from `min` up to, but not including, `max`.
///
/// Wraps `Rng::gen_range` on `u32`, which samples the half-open range and
/// panics where the range is empty.
#[verifier::external_body]
pub fn rand_u32_r(min: u32, max: u32, rng: &mut RandGenerator) -> (r: u32)
    requires
        min < max,
    ensures
        min <= r < max,
{
    rng.gen_range(min, max)
}

} // verus!
