//! The pseudorandom source the generator and the monster AI draw from.
//! The random calls go through trusted wrappers; everything that consumes a
//! drawn number is verified for every value the wrapper can return.
use vstd::prelude::*;

verus! {

#[verifier::external_type_specification]
#[verifier::external_body]
pub struct ExRandomNumberGenerator(bracket_lib::random::RandomNumberGenerator);

/// Relies on bracket_lib's `RandomNumberGenerator::range`: a value drawn
/// uniformly from `[low, high)`, inclusive of `low` and exclusive of `high`
/// (it panics on an empty range, so that is required away).
#[verifier::external_body]
pub(crate) fn rng_range(rng: &mut bracket_lib::random::RandomNumberGenerator, low: i32, high: i32) -> (r: i32)
    requires
        low < high,
    ensures
        low <= r < high,
{
    rng.range(low, high)
}

/// Relies on bracket_lib's `RandomNumberGenerator::roll_dice`: the sum of
/// `n` rolls of a `die_type`-sided die, so between `n` and `n * die_type`
/// (each roll draws from `[1, die_type + 1)`, which panics when the range is
/// empty or `die_type + 1` overflows; those inputs are required away).
#[verifier::external_body]
pub(crate) fn rng_roll_dice(rng: &mut bracket_lib::random::RandomNumberGenerator, n: i32, die_type: i32) -> (r: i32)
    requires
        1 <= n,
        1 <= die_type < i32::MAX,
        n * die_type <= i32::MAX,
    ensures
        n <= r <= n * die_type,
{
    rng.roll_dice(n, die_type)
}

} // verus!
