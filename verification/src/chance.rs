//! Random sequence numbers.
use vstd::prelude::*;

verus! {

/// A random number drawn uniformly from `low..=high`, by
/// `rand::Rng::gen_range` on `rand::thread_rng()`. Only the bounds are claimed;
/// `gen_range` panics on an empty range, hence the `requires`.
#[verifier::external_body]
pub(crate) fn random_in_range(low: u32, high: u32) -> (r: u32)
    requires
        low <= high,
    ensures
        low <= r <= high,
{
    rand::Rng::gen_range(&mut rand::thread_rng(), low..=high)
}

/// A random 16-bit number, by `rand::Rng::gen` on `rand::thread_rng()`.
/// Nothing is claimed of its value.
#[verifier::external_body]
pub(crate) fn random_u16() -> (r: u16) {
    rand::Rng::gen::<u16>(&mut rand::thread_rng())
}

} // verus!
