//! Wall-clock and monotonic time, as whole milliseconds.
//!
//! Every reading of a clock here depends on the machine and the moment,
//! so nothing is promised of the value returned; the logic elsewhere in
//! the crate takes times as plain `u64` arguments.

use std::time::{Instant, SystemTime, SystemTimeError, UNIX_EPOCH};
use std::time::Duration;

use vstd::prelude::*;

verus! {

#[verifier::external_type_specification]
#[verifier::external_body]
pub struct ExSystemTime(SystemTime);

#[verifier::external_type_specification]
#[verifier::external_body]
pub struct ExSystemTimeError(SystemTimeError);

#[verifier::external_type_specification]
#[verifier::external_body]
pub struct ExInstant(Instant);

/// `SystemTime::now`: reads the system wall clock. Nothing is claimed
/// of the value, which depends on the moment of the call.
#[verifier::external_body]
fn system_time_now() -> SystemTime {
    SystemTime::now()
}

/// `SystemTime::duration_since` against the Unix epoch. The outcome
/// (a duration, or an error when the clock reads before 1970) depends
/// on the clock reading, so nothing is claimed of it.
#[verifier::external_body]
fn since_unix_epoch(t: &SystemTime) -> Result<Duration, SystemTimeError> {
    t.duration_since(UNIX_EPOCH)
}

/// `Duration::as_millis`: the whole milliseconds in a duration. The
/// duration is opaque here, so nothing is claimed of the number.
#[verifier::external_body]
fn duration_millis(d: &Duration) -> u128 {
    d.as_millis()
}

/// `Duration::as_nanos`: the whole nanoseconds in a duration. The
/// duration is opaque here, so nothing is claimed of the number.
#[verifier::external_body]
fn duration_nanos(d: &Duration) -> u128 {
    d.as_nanos()
}

/// `Instant::now`: reads the monotonic clock. Nothing is claimed of it.
#[verifier::external_body]
fn instant_now() -> Instant {
    Instant::now()
}

/// `Instant::elapsed`: time since `origin` on the monotonic clock.
/// It depends on the moment of the call, so nothing is claimed of it.
#[verifier::external_body]
fn instant_elapsed(origin: &Instant) -> Duration {
    origin.elapsed()
}

/// The milliseconds a wall-clock reading stands for: the whole
/// milliseconds since the Unix epoch truncated to 64 bits, or 0 for a
/// clock that reads before the epoch (`None`).
pub open spec fn spec_epoch_millis(reading: Option<u128>) -> u64 {
    match reading {
        Some(m) => m as u64,
        None => 0,
    }
}

/// Map a wall-clock reading (whole milliseconds since the Unix epoch, or
/// `None` before the epoch) to the `u64` timestamp the runtime records.
pub fn epoch_millis(reading: Option<u128>) -> (ms: u64)
    ensures
        ms == spec_epoch_millis(reading),
{
    match reading {
        Some(m) => {
            #[verifier::truncate]
            (m as u64)
        },
        None => 0,
    }
}

/// Current wall-clock time in milliseconds since the Unix epoch; 0 when
/// the system clock reads before the epoch. Larger values are truncated
/// to 64 bits.
pub fn now_ms() -> (ms: u64)
    ensures
        exists|reading: Option<u128>| ms == spec_epoch_millis(reading),
{
    let t = system_time_now();
    let reading = match since_unix_epoch(&t) {
        Ok(d) => Some(duration_millis(&d)),
        Err(_) => None,
    };
    epoch_millis(reading)
}

/// A monotonic clock that counts nanoseconds from the moment it was
/// started. Readings never go backwards in practice, but nothing here
/// relies on that: the logic that uses them saturates differences.
pub struct MonotonicClock {
    origin: Instant,
}

impl MonotonicClock {
    /// Start a clock at the present instant.
    pub fn start() -> (c: MonotonicClock) {
        MonotonicClock { origin: instant_now() }
    }

    /// Nanoseconds elapsed since the clock was started, truncated to
    /// 64 bits (which wrap only after some 584 years).
    pub fn read_ns(&self) -> (ns: u64) {
        let d = instant_elapsed(&self.origin);
        let nanos = duration_nanos(&d);
        #[verifier::truncate]
        (nanos as u64)
    }
}

} // verus!
