//! The random source. Nothing here is proved: these are the promises that the
//! rest of the library takes from the `rand` crate.

use rand::rngs::ThreadRng;
use rand::Rng;
use vstd::prelude::*;

verus! {

/// `rand::rngs::ThreadRng`, the handle to the generator that `rand` keeps for
/// each thread. Nothing is known of what it holds.
#[verifier::external_type_specification]
#[verifier::external_body]
pub struct ExThreadRng(rand::rngs::ThreadRng);

/// `rand::thread_rng` hands out the calling thread's generator, which the
/// operating system seeds on first use. Nothing is promised of the handle.
/// The call panics if the operating system gives no seed.
pub assume_specification[ rand::thread_rng ]() -> (rng: rand::rngs::ThreadRng)
;

/// `Rng::gen_range(0, high)` on `usize`: some index below `high`. Which one
/// is up to the generator, so only the range is promised. `rand` panics on an
/// empty range, hence `high` has to be positive.
#[verifier::external_body]
pub(crate) fn random_below(rng: &mut ThreadRng, high: usize) -> (index: usize)
    requires
        0 < high,
    ensures
        index < high,
{
    rng.gen_range(0, high)
}

} // verus!
