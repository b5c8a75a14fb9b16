//! The source of randomness used to select cards, built on the `rand`
//! crate's thread-local generator.

use vstd::prelude::*;

verus! {

/// Declares the `rand` crate's thread-local generator type, so that a
/// session can hold one; its values are opaque here.
#[verifier::external_type_specification]
#[verifier::external_body]
pub struct ExThreadRng(rand::rngs::ThreadRng);

/// Relies on `rand::rng`: obtains a handle to the calling thread's random
/// generator. Nothing is promised of the values it will produce. (It aborts
/// only if the operating system cannot seed the generator at all, a failure
/// no input can provoke.)
#[verifier::external_body]
pub(crate) fn new_rng() -> rand::rngs::ThreadRng {
    rand::rng()
}

/// Relies on `rand::RngExt::random_range` over `0..n`: returns a value in
/// that range, and panics only when the range is empty, which the
/// precondition rules out. Which value comes back is left open: every call
/// may differ.
#[verifier::external_body]
pub(crate) fn random_below(rng: &mut rand::rngs::ThreadRng, n: usize) -> (r: usize)
    requires
        n >= 1,
    ensures
        r < n,
{
    rand::RngExt::random_range(rng, 0..n)
}

} // verus!
