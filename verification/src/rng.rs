//! Randomness, supplied by the `rand` crate behind trusted wrappers.
//!
//! Nothing is assumed of the drawn values beyond their documented ranges:
//! every caller is verified for all outcomes.

use vstd::prelude::*;
use rand::Rng;
use rand::distributions::DistString;

verus! {

/// Relies on `rand::Rng::gen_range(0..200)`: returns a uniformly drawn
/// value of the non-empty range, so the result is below 200.
#[verifier::external_body]
pub fn random_jitter_permille() -> (r: u64)
    ensures
        r < 200,
{
    rand::thread_rng().gen_range(0u64..200u64)
}

/// Relies on `rand::distributions::DistString::sample_string` for the
/// `Alphanumeric` distribution: returns a string of exactly the requested
/// number of random characters.
#[verifier::external_body]
pub fn random_simulation_id() -> (r: String)
    ensures
        r@.len() == 8,
{
    rand::distributions::Alphanumeric.sample_string(&mut rand::thread_rng(), 8)
}

} // verus!
