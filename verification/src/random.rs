//! The pool's one source of chance.

use rand::Rng;
use vstd::prelude::*;

verus! {

/// Draws a number below `bound` from the thread's generator, through
/// `rand::thread_rng` and `rand::Rng::gen_range` on `0..bound`. Nothing is
/// known of the draw but its range. The draw panics on an empty range, which
/// `bound > 0` rules out, and where the system gives the generator no seed.
#[verifier::external_body]
pub(crate) fn random_below(bound: u64) -> (drawn: u64)
    requires
        bound > 0,
    ensures
        drawn < bound,
{
    rand::thread_rng().gen_range(0..bound)
}

} // verus!
