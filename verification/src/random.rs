//! The source of randomness: the small generator of the `rand` crate and the
//! two draws that the library makes from it. Nothing here is proved; the
//! contracts state what the documentation of `rand` promises of every draw.

use rand::rngs::SmallRng;
use rand::Rng;
use vstd::prelude::*;

verus! {

/// `rand::rngs::SmallRng`, whose state the library never looks into.
#[verifier::external_type_specification]
#[verifier::external_body]
pub struct ExSmallRng(SmallRng);

/// Calls `rand::Rng::random_range` on the half-open range from `low` to
/// `high`. Trusted: the call panics on an empty range, and what it returns
/// lies in the range.
#[verifier::external_body]
pub(crate) fn random_range(rng: &mut SmallRng, low: u32, high: u32) -> (drawn: u32)
    requires
        low < high,
    ensures
        low <= drawn < high,
{
    rng.random_range(low..high)
}

/// Calls `rand::Rng::random_ratio`, which answers `true` with a chance of
/// `numerator` in `denominator`. Trusted: the call panics on a zero
/// denominator and on a ratio above one, always answers `true` on a ratio
/// of one, and always answers `false` on a ratio of zero.
#[verifier::external_body]
pub(crate) fn random_ratio(rng: &mut SmallRng, numerator: u32, denominator: u32) -> (heads: bool)
    requires
        0 < denominator,
        numerator <= denominator,
    ensures
        numerator == denominator ==> heads,
        numerator == 0 ==> !heads,
{
    rng.random_ratio(numerator, denominator)
}

} // verus!
