//! The wall clock, as whole seconds since the Unix epoch.

use std::time::{Duration, SystemTime, UNIX_EPOCH};
use vstd::prelude::*;

verus! {

#[verifier::external_type_specification]
#[verifier::external_body]
pub struct ExSystemTime(std::time::SystemTime);

/// `std::time::SystemTime::now`. Nothing is claimed of the instant it returns.
#[verifier::external_body]
fn system_time_now() -> SystemTime {
    SystemTime::now()
}

/// `std::time::SystemTime::duration_since`, measured from `UNIX_EPOCH`; `None`
/// where the clock stands before the epoch. Nothing is claimed of the duration.
#[verifier::external_body]
fn duration_since_unix_epoch(t: &SystemTime) -> Option<Duration> {
    match t.duration_since(UNIX_EPOCH) {
        Ok(d) => Some(d),
        Err(_) => None,
    }
}

/// `std::time::Duration::as_secs`. Nothing is claimed of the count.
#[verifier::external_body]
fn duration_whole_seconds(d: &Duration) -> u64 {
    d.as_secs()
}

/// The timestamp for a clock reading of `seconds` whole seconds since the Unix
/// epoch (`None` where the clock stands before the epoch): the seconds
/// truncated to 32 bits, or 0.
pub fn timestamp_from_seconds(seconds: Option<u64>) -> (r: u32)
    ensures
        r == match seconds {
            Some(s) => s as u32,
            None => 0,
        },
{
    match seconds {
        Some(s) => #[verifier::truncate] (s as u32),
        None => 0,
    }
}

/// Seconds since the Unix epoch, truncated to 32 bits; 0 where the clock stands
/// before the epoch. The value depends on the machine's clock.
pub fn unix_timestamp() -> u32 {
    let seconds = match duration_since_unix_epoch(&system_time_now()) {
        Some(d) => Some(duration_whole_seconds(&d)),
        None => None,
    };
    timestamp_from_seconds(seconds)
}

} // verus!
