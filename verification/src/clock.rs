//! The system clock, read in milliseconds and seconds since the Unix epoch.
//!
//! What the clock reads is not a function of anything the library holds, so
//! nothing is promised of the values; the date arithmetic that follows a
//! reading lives in functions that take the reading as an argument.
use crate::error::IidError;
use std::time::{Duration, SystemTime, UNIX_EPOCH};
use vstd::prelude::*;

verus! {

/// Where the clock offset to an NTP server is asked for. The asking itself
/// (network traffic, and a floating-point conversion of the offset) is done
/// by the caller.
pub struct NtpOffsetFetcher;

impl NtpOffsetFetcher {
    /// NTP server asked for the clock offset by default.
    pub const DEFAULT_NTP_SERVER: &'static str = "be.pool.ntp.org";
}

#[verifier::external_type_specification]
#[verifier::external_body]
pub struct ExSystemTime(SystemTime);

/// Calls `SystemTime::now`. Nothing is promised of the time it reads.
#[verifier::external_body]
fn system_time_now() -> SystemTime {
    SystemTime::now()
}

/// Calls `SystemTime::duration_since` with `UNIX_EPOCH`; its error, for a
/// time before the epoch, becomes `None`. Nothing is promised of the
/// duration.
#[verifier::external_body]
fn duration_since_unix_epoch(t: &SystemTime) -> Option<Duration> {
    match t.duration_since(UNIX_EPOCH) {
        Ok(d) => Some(d),
        Err(_) => None,
    }
}

/// Calls `Duration::as_millis`. `Duration` is opaque here, so nothing is
/// promised of the count.
#[verifier::external_body]
fn duration_as_millis(d: &Duration) -> u128 {
    d.as_millis()
}

/// Calls `Duration::as_secs`. `Duration` is opaque here, so nothing is
/// promised of the count.
#[verifier::external_body]
fn duration_as_secs(d: &Duration) -> u64 {
    d.as_secs()
}

/// Milliseconds since the Unix epoch on the system clock, truncated to an
/// `i64` as an `as` cast does; an error when the clock reads a time before
/// the epoch.
pub fn unix_time_millis() -> (r: Result<i64, IidError>)
    ensures
        r matches Err(e) ==> e == IidError::ClockBeforeUnixEpoch,
{
    let now = system_time_now();
    match duration_since_unix_epoch(&now) {
        Some(d) => Ok(duration_as_millis(&d) as i64),
        None => Err(IidError::ClockBeforeUnixEpoch),
    }
}

/// Whole seconds since the Unix epoch on the system clock; an error when the
/// clock reads a time before the epoch.
pub fn unix_time_secs() -> (r: Result<u64, IidError>)
    ensures
        r matches Err(e) ==> e == IidError::ClockBeforeUnixEpoch,
{
    let now = system_time_now();
    match duration_since_unix_epoch(&now) {
        Some(d) => Ok(duration_as_secs(&d)),
        None => Err(IidError::ClockBeforeUnixEpoch),
    }
}

/// The sum of two `i64`s, or `None` where it leaves the range of `i64`.
pub open spec fn checked_sum(a: i64, b: i64) -> Option<i64> {
    if i64::MIN <= a + b <= i64::MAX {
        Some((a + b) as i64)
    } else {
        None
    }
}

} // verus!
