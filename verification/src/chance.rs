//! The source of randomness: the thread-local generator of the `rand` crate.
//!
//! Nothing in this module is proved. It declares the generator's type and
//! states, for each call that the library makes into `rand`, the little that
//! holds of every outcome.

use vstd::prelude::*;
use rand::Rng;
use rand::rngs::ThreadRng;

verus! {

/// `rand::rngs::ThreadRng`, the handle of the thread-local generator. It is
/// carried through as it is: nothing is known of its state.
#[verifier::external_type_specification]
#[verifier::external_body]
pub struct ExThreadRng(ThreadRng);

/// `rand::thread_rng` hands out the handle of the thread-local generator,
/// which the operating system seeds when a thread first asks for it. Nothing
/// is claimed of the handle.
pub assume_specification[ rand::thread_rng ]() -> (rng: ThreadRng);

/// Calls `Rng::gen_range` with the half-open range from 0 to `bound`. That
/// call panics on an empty range, so `bound` has to be positive. The contract
/// claims that the draw lies in the range, and nothing of how it is spread.
#[verifier::external_body]
pub(crate) fn draw_below(rng: &mut ThreadRng, bound: usize) -> (r: usize)
    requires
        bound > 0,
    ensures
        r < bound,
{
    rng.gen_range(0..bound)
}

/// Calls `Rng::gen` for a `u32`. Any value may come back: nothing is claimed
/// of the draw.
#[verifier::external_body]
pub(crate) fn draw_key(rng: &mut ThreadRng) -> (r: u32) {
    rng.gen::<u32>()
}

} // verus!
