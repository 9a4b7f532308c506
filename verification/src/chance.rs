//! Draws from the thread's random number generator.

use vstd::prelude::*;
use rand::Rng;

verus! {

/// Calls `rand::random` for a `bool`. The outcome is a matter of chance, so
/// nothing is claimed of it.
#[verifier::external_body]
pub(crate) fn coin() -> (heads: bool) {
    rand::random()
}

/// Calls `Rng::gen_range` on `rand::thread_rng()` with the range `0..n`,
/// which gives a number of that range and panics where the range is empty.
#[verifier::external_body]
pub(crate) fn pick_below(n: usize) -> (r: usize)
    requires
        n > 0,
    ensures
        r < n,
{
    rand::thread_rng().gen_range(0..n)
}

} // verus!
