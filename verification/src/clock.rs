//! The one place the library touches the outside world: reading the wall
//! clock, for resampling "up to now".

use vstd::prelude::*;

verus! {

/// Every instant the wall clock can report stays within this many
/// milliseconds of the epoch: the clock library represents years up to
/// about two hundred and sixty thousand on either side, which is below
/// nine quadrillion milliseconds.
pub const CLOCK_MILLIS_BOUND: i64 = 9_000_000_000_000_000;

/// Relies on chrono's `Utc::now` and `DateTime::timestamp_millis`: the
/// current instant in milliseconds. Nothing is promised of its value beyond
/// the range every representable instant lies in.
#[verifier::external_body]
pub fn now_millis() -> (t: i64)
    ensures
        -CLOCK_MILLIS_BOUND < t < CLOCK_MILLIS_BOUND,
{
    chrono::Utc::now().timestamp_millis()
}

} // verus!
