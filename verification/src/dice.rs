//! The random source behind the dice.

use rand::rngs::ThreadRng;
use rand::Rng;
use vstd::prelude::*;

verus! {

/// `rand::rngs::ThreadRng`, the handle to a thread's generator. Nothing is
/// known of what is inside.
#[verifier::external_type_specification]
#[verifier::external_body]
pub struct ExThreadRng(ThreadRng);

/// Calls `rand::rng`, which hands out the calling thread's generator. It is
/// seeded by the operating system, so nothing is known of what it will give.
#[verifier::external_body]
pub(crate) fn thread_rng() -> (rng: ThreadRng) {
    rand::rng()
}

/// Calls `Rng::random_range` on the range from zero up to, not including,
/// `bound`. That method panics on an empty range, hence the `requires`.
/// Trusted: the number it gives lies in the range. Which number it is, is
/// left open.
#[verifier::external_body]
pub(crate) fn random_below(rng: &mut ThreadRng, bound: u32) -> (number: u32)
    requires
        bound > 0,
    ensures
        number < bound,
{
    rng.random_range(0..bound)
}

} // verus!
