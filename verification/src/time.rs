//! The clocks of the standard library.
use std::time::{Duration, Instant, SystemTime, SystemTimeError};
use vstd::prelude::*;

verus! {

/// A point on the monotonic clock. Nothing is known of what it holds.
#[verifier::external_type_specification]
#[verifier::external_body]
pub struct ExInstant(Instant);

/// A point on the system clock. Nothing is known of what it holds.
#[verifier::external_type_specification]
#[verifier::external_body]
pub struct ExSystemTime(SystemTime);

/// The error of a subtraction of two points on the system clock.
#[verifier::external_type_specification]
#[verifier::external_body]
pub struct ExSystemTimeError(SystemTimeError);

/// `SystemTime::now` reads the system clock. Nothing is claimed of what it shows.
pub assume_specification[ SystemTime::now ]() -> SystemTime;

/// How long after `std::time::UNIX_EPOCH` a point is, as
/// `SystemTime::duration_since` says; nothing for a point before it.
pub uninterp spec fn since_unix_epoch(t: SystemTime) -> Option<Duration>;

/// `SystemTime::duration_since` subtracts `std::time::UNIX_EPOCH` from a point,
/// and fails where the point is the earlier one. What it gives depends on the
/// point alone.
#[verifier::external_body]
fn duration_since_epoch(t: &SystemTime) -> (r: Result<Duration, SystemTimeError>)
    ensures
        r is Ok <==> since_unix_epoch(*t) is Some,
        r matches Ok(d) ==> since_unix_epoch(*t) == Some(d),
{
    t.duration_since(std::time::UNIX_EPOCH)
}

/// How many whole seconds `Duration::as_secs` says that a duration has.
pub uninterp spec fn whole_seconds(d: Duration) -> u64;

/// `Duration::as_secs` is the number of whole seconds, which depends on the
/// duration alone.
pub assume_specification[ Duration::as_secs ](d: &Duration) -> (r: u64)
    ensures
        r == whole_seconds(*d),
;

/// The whole seconds of a difference of two points; 0 where it has none.
pub fn seconds_of(difference: Result<Duration, SystemTimeError>) -> (r: u64)
    ensures
        r == match difference {
            Ok(d) => whole_seconds(d),
            Err(_) => 0,
        },
{
    match difference {
        Ok(d) => d.as_secs(),
        Err(_) => 0,
    }
}

/// The whole seconds from the Unix epoch to a point; 0 for one before it.
pub open spec fn unix_time(t: SystemTime) -> u64 {
    match since_unix_epoch(t) {
        Some(d) => whole_seconds(d),
        None => 0,
    }
}

/// The whole seconds from the Unix epoch to `t`; 0 where `t` is before it.
pub fn unix_seconds_at(t: SystemTime) -> (r: u64)
    ensures
        r == unix_time(t),
{
    seconds_of(duration_since_epoch(&t))
}

/// Seconds since the Unix epoch; 0 where the clock stands before it. Which
/// point the clock shows is not stated.
pub fn unix_seconds() -> (r: u64)
    ensures
        exists|now: SystemTime| r == #[trigger] unix_time(now),
{
    unix_seconds_at(SystemTime::now())
}

} // verus!
