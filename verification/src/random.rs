//! The random source, and the draws that the sampler makes from it.
//!
//! The generator of the `rand` crate is opaque here: of a draw only its
//! range is known.
use rand::rngs::StdRng;
use rand::Rng;
use vstd::prelude::*;

verus! {

/// `rand::rngs::StdRng`, the seedable generator that samples are drawn from.
#[verifier::external_type_specification]
#[verifier::external_body]
pub struct ExStdRng(StdRng);

/// `rand::Rng::gen_range` on the inclusive range from `low` to `high`.
///
/// Believed of it: the value lies in the range. It panics on an empty range,
/// which the precondition leaves out.
#[verifier::external_body]
pub(crate) fn draw_inclusive(rng: &mut StdRng, low: usize, high: usize) -> (drawn: usize)
    requires
        low <= high,
    ensures
        low <= drawn <= high,
{
    rng.gen_range(low..=high)
}

/// `rand::Rng::gen_ratio`: a coin that shows `true` with probability
/// `numerator / denominator`.
///
/// Nothing is believed of the result. It panics on a zero denominator and on
/// a ratio above one, which the precondition leaves out.
#[verifier::external_body]
pub(crate) fn flip(rng: &mut StdRng, numerator: u32, denominator: u32) -> (heads: bool)
    requires
        0 < denominator,
        numerator <= denominator,
{
    rng.gen_ratio(numerator, denominator)
}

} // verus!
