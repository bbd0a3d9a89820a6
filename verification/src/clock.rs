//! Reading the time: the wall clock for timestamps, and a monotonic clock
//! for measuring how long a computation took.

use vstd::prelude::*;

verus! {

/// Reads the system clock with `Utc::now` of the `chrono` crate and returns
/// its `timestamp`: whole seconds since the start of 1970, UTC.
///
/// Trusted, with nothing promised of the value: two readings may differ in
/// either direction. `chrono` panics where the system clock stands before
/// 1970.
#[verifier::external_body]
pub(crate) fn unix_time() -> (seconds: i64) {
    chrono::Utc::now().timestamp()
}

/// `std::time::Instant`, a reading of the monotonic clock. Nothing is known
/// of what it holds.
#[verifier::external_type_specification]
#[verifier::external_body]
pub struct ExInstant(std::time::Instant);

/// `Instant::now` reads the monotonic clock. Nothing is promised of the
/// reading.
pub assume_specification[ std::time::Instant::now ]() -> (now: std::time::Instant)
;

/// `Instant::elapsed` returns the time that has passed since the reading
/// was taken. Nothing is promised of it.
pub assume_specification[ std::time::Instant::elapsed ](
    instant: &std::time::Instant,
) -> (elapsed: core::time::Duration)
;

/// `Duration::as_micros` returns the whole microseconds that a duration
/// holds. Nothing is promised of the number.
pub assume_specification[ core::time::Duration::as_micros ](
    duration: &core::time::Duration,
) -> (micros: u128)
;

} // verus!
