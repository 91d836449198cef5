//! The random draws that level generation makes.
//!
//! Each function here hands one draw to the `rand` crate. Its contract is
//! taken on trust from that crate's documentation and says only what
//! holds of every outcome.

use rand::rngs::StdRng;
use vstd::prelude::*;

verus! {

/// The random number generator `rand::rngs::StdRng`, which the library
/// carries to the draws and never looks into.
#[verifier::external_type_specification]
#[verifier::external_body]
pub struct ExStdRng(StdRng);

/// Calls `rand::Rng::gen_range`: a number from `low` up to, but not
/// including, `high`. The call panics unless `low < high`.
#[verifier::external_body]
pub(crate) fn random_range(rng: &mut StdRng, low: i32, high: i32) -> (n: i32)
    requires
        low < high,
    ensures
        low <= n < high,
{
    rand::Rng::gen_range(rng, low, high)
}

/// Calls `rand::Rng::gen` for a `bool`: either value may come back.
#[verifier::external_body]
pub(crate) fn random_bool(rng: &mut StdRng) -> (b: bool) {
    rand::Rng::gen(rng)
}

/// Calls `rand::Rng::gen_ratio`: true with a chance of `numerator` in
/// `denominator`. The outcome is certain only at the two ends. The call
/// panics if `denominator` is 0 or less than `numerator`.
#[verifier::external_body]
pub(crate) fn random_ratio(rng: &mut StdRng, numerator: u32, denominator: u32) -> (b: bool)
    requires
        denominator > 0,
        numerator <= denominator,
    ensures
        numerator == denominator ==> b,
        numerator == 0 ==> !b,
{
    rand::Rng::gen_ratio(rng, numerator, denominator)
}

} // verus!
