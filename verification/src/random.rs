//! The source of randomness: the calling thread's generator of the `rand`
//! crate. Its draws are the only values in the library that are not a
//! function of the inputs.
//!
//! The generator is seeded from the operating system when a thread first
//! uses it, and `rand::thread_rng` panics if that fails. The library takes
//! the source of randomness to be infallible.

use rand::Rng;
use vstd::prelude::*;

verus! {

/// Draws one byte with `Rng::gen::<u8>` on `rand::thread_rng()`.
///
/// Trusted, not proved. Every byte value may come back, so nothing is claimed
/// of the result.
#[verifier::external_body]
pub(crate) fn random_byte() -> u8 {
    rand::thread_rng().gen::<u8>()
}

/// Draws an index with `Rng::gen_range(0..bound)` on `rand::thread_rng()`.
///
/// Trusted, not proved: the index drawn lies in `[0, bound)`. `gen_range`
/// panics on an empty range, which `bound > 0` rules out.
#[verifier::external_body]
pub(crate) fn random_below(bound: usize) -> (drawn: usize)
    requires
        bound > 0,
    ensures
        drawn < bound,
{
    rand::thread_rng().gen_range(0..bound)
}

} // verus!
