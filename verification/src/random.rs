//! Trusted boundary to the random source.
//!
//! The generator draws all of its randomness through the three wrappers
//! below, each a thin call into the `rand` crate on a `SmallRng`. Their
//! contracts state only what holds of every outcome of a draw; nothing is
//! assumed about which outcome comes back.

use vstd::prelude::*;
use rand::Rng;
use rand::rngs::SmallRng;

verus! {

/// Declares rand's `SmallRng` so it can stand in signatures; its state is
/// opaque to the verifier.
#[verifier::external_type_specification]
#[verifier::external_body]
pub struct ExSmallRng(SmallRng);

/// Relies on rand's `Rng::gen_range`: on a non-empty half-open range
/// `lo..hi` it returns a value inside that range and does not panic.
#[verifier::external_body]
pub(crate) fn rng_range_u8(rng: &mut SmallRng, lo: u8, hi: u8) -> (r: u8)
    requires
        lo < hi,
    ensures
        lo <= r < hi,
{
    rng.gen_range(lo..hi)
}

/// Relies on rand's `Rng::gen` at type `usize`: any value may come back.
#[verifier::external_body]
pub(crate) fn rng_usize(rng: &mut SmallRng) -> usize {
    rng.gen::<usize>()
}

/// Relies on rand's `Rng::gen` at type `bool`: either value may come back.
#[verifier::external_body]
pub(crate) fn rng_bool(rng: &mut SmallRng) -> bool {
    rng.gen::<bool>()
}

} // verus!
