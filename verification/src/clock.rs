//! Wall-clock measurement: a stopwatch over the monotonic clock that reports
//! elapsed time as a whole number of nanoseconds.

use std::time::{Duration, Instant};
use vstd::prelude::*;

verus! {

/// A moment of std's monotonic clock, opaque to the verifier.
#[verifier::external_type_specification]
#[verifier::external_body]
pub struct ExInstant(Instant);

/// Calls `Instant::now`. Nothing is promised of the moment that comes back.
#[verifier::external_body]
fn now() -> Instant {
    Instant::now()
}

/// Calls `Instant::elapsed`. Nothing is promised of the time that comes
/// back.
#[verifier::external_body]
fn elapsed(start: &Instant) -> Duration {
    start.elapsed()
}

/// Calls `Duration::as_nanos`: the whole duration in nanoseconds. A duration
/// is opaque here, so nothing is said of the number.
#[verifier::external_body]
fn as_nanos(time: &Duration) -> u128 {
    time.as_nanos()
}

/// `n` itself where it fits in 64 bits, else the greatest 64-bit value.
pub open spec fn saturated(n: u128) -> u64 {
    if n <= u64::MAX {
        n as u64
    } else {
        u64::MAX
    }
}

/// Brings a nanosecond count down to 64 bits, which hold more than five
/// centuries; a longer time counts as the longest that fits.
pub fn saturate(n: u128) -> (t: u64)
    ensures
        t == saturated(n),
{
    if n <= u64::MAX as u128 {
        n as u64
    } else {
        u64::MAX
    }
}

/// A running measurement of elapsed time.
pub struct Stopwatch {
    start: Instant,
}

impl Stopwatch {
    /// Starts measuring at the present moment.
    pub fn start() -> Stopwatch {
        Stopwatch { start: now() }
    }

    /// The nanoseconds gone by since the start, saturated at 64 bits. The
    /// clock decides the number; no two readings need agree.
    pub fn elapsed_nanos(&self) -> u64 {
        let time = elapsed(&self.start);
        saturate(as_nanos(&time))
    }
}

} // verus!
