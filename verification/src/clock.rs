//! The wall clock that limits a turn.

use vstd::prelude::*;
use std::time::Instant;

verus! {

/// A moment of the monotonic clock, `std::time::Instant`.
#[verifier::external_type_specification]
#[verifier::external_body]
pub struct ExInstant(Instant);

/// Calls `Instant::now`. Nothing is claimed of the moment it gives.
#[verifier::external_body]
pub(crate) fn start() -> Instant {
    Instant::now()
}

/// Calls `Instant::elapsed` and gives the time in whole nanoseconds.
/// Nothing is claimed of how much time has passed.
#[verifier::external_body]
pub(crate) fn elapsed_ns(since: &Instant) -> u128 {
    since.elapsed().as_nanos()
}

/// Nanoseconds in a second.
pub const SECOND: u128 = 1_000_000_000;

/// The whole seconds that are left of a turn of `turn_time` seconds when
/// `spent` nanoseconds of it have passed; `None` once the time is up.
pub fn time_left(turn_time: u64, spent: u128) -> (left: Option<u64>)
    ensures
        left == (if spent <= turn_time * SECOND {
            Some(((turn_time * SECOND - spent) / (SECOND as int)) as u64)
        } else {
            None
        }),
{
    let budget: u128 = turn_time as u128 * SECOND;
    if spent <= budget {
        Some(((budget - spent) / SECOND) as u64)
    } else {
        None
    }
}

} // verus!
