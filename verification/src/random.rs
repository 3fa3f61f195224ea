//! The random source of the level builders: `rltk`'s dice-rolling generator.
//!
//! Nothing in this file is proved. Each function hands one call to `rltk`
//! and states, for the verifier to rely on, the bounds that `rltk` keeps.

use vstd::prelude::*;

verus! {

/// `rltk::RandomNumberGenerator`, of which the verifier sees no more than
/// that the type exists.
#[verifier::external_type_specification]
#[verifier::external_body]
pub struct ExRandomNumberGenerator(rltk::RandomNumberGenerator);

/// Calls `RandomNumberGenerator::new`, which seeds a generator from the
/// system's entropy. Nothing is claimed of the generator it returns.
#[verifier::external_body]
pub(crate) fn new_rng() -> rltk::RandomNumberGenerator {
    rltk::RandomNumberGenerator::new()
}

/// Calls `RandomNumberGenerator::range` on two `i32` bounds. `rltk`
/// samples from the half-open range `min..max` and panics if that range
/// is empty; the claim is that the draw is at least `min` and below
/// `max`.
#[verifier::external_body]
pub(crate) fn range(rng: &mut rltk::RandomNumberGenerator, min: i32, max: i32) -> (drawn: i32)
    requires
        min < max,
    ensures
        min <= drawn < max,
{
    rng.range(min, max)
}

/// Calls `RandomNumberGenerator::roll_dice`, which adds up `n` draws from
/// `1..die_type + 1`. The claim is that the total of `n` dice with
/// `die_type` faces each lies between `n` and `n * die_type`; the demands
/// keep every draw's range non-empty and the total within `i32`.
#[verifier::external_body]
pub(crate) fn roll_dice(rng: &mut rltk::RandomNumberGenerator, n: i32, die_type: i32) -> (total:
    i32)
    requires
        1 <= n,
        1 <= die_type < i32::MAX,
        n * die_type <= i32::MAX,
    ensures
        n <= total <= n * die_type,
{
    rng.roll_dice(n, die_type)
}

} // verus!
