//! The wall clock, which the library reads but cannot reason about.

use std::time::{Duration, SystemTime, SystemTimeError};
use vstd::prelude::*;

verus! {

#[verifier::external_type_specification]
#[verifier::external_body]
pub struct ExSystemTime(SystemTime);

#[verifier::external_type_specification]
#[verifier::external_body]
pub struct ExSystemTimeError(SystemTimeError);

/// Relies on `SystemTime::now`: the current wall-clock time. Nothing is known
/// of the value.
pub assume_specification[ SystemTime::now ]() -> SystemTime;

/// Relies on `SystemTime::elapsed`: the time since `t`, or an error when the
/// clock went backwards. Nothing is known of the value.
pub assume_specification[ SystemTime::elapsed ](t: &SystemTime) -> Result<
    Duration,
    SystemTimeError,
>;

/// Relies on `SystemTime::duration_since`: the time from `earlier` to `t`, or
/// an error when `earlier` is later. Nothing is known of the value.
pub assume_specification[ SystemTime::duration_since ](t: &SystemTime, earlier: SystemTime) -> Result<
    Duration,
    SystemTimeError,
>;

/// Relies on `Duration::from_millis`, which never panics.
pub assume_specification[ Duration::from_millis ](millis: u64) -> Duration;

/// Relies on `Duration::as_millis`, which never panics.
pub assume_specification[ Duration::as_millis ](d: &Duration) -> u128;

/// Relies on `Duration::as_secs`, which never panics.
pub assume_specification[ Duration::as_secs ](d: &Duration) -> u64;

/// Relies on `Duration::as_nanos`, which never panics.
pub assume_specification[ Duration::as_nanos ](d: &Duration) -> u128;

/// Relies on `SystemTime::duration_since` with the Unix epoch as the earlier
/// time: the time elapsed since 1970-01-01, or an error for an earlier `t`.
#[verifier::external_body]
pub(crate) fn since_unix_epoch(t: &SystemTime) -> (r: Result<Duration, SystemTimeError>) {
    t.duration_since(std::time::UNIX_EPOCH)
}

} // verus!
