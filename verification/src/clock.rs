//! The wall clock, read in whole seconds since the Unix epoch.

use std::time::{Duration, SystemTime, SystemTimeError};
use vstd::prelude::*;

verus! {

/// `std::time::SystemTime`: a point in time as the system clock gives it.
/// Nothing is known of what a value holds.
#[verifier::external_type_specification]
#[verifier::external_body]
pub struct ExSystemTime(std::time::SystemTime);

/// `std::time::SystemTimeError`: what `SystemTime::duration_since` returns
/// where the second point in time lies after the first.
#[verifier::external_type_specification]
#[verifier::external_body]
pub struct ExSystemTimeError(std::time::SystemTimeError);

/// The number of whole seconds in a duration, as `Duration::as_secs` gives it.
pub uninterp spec fn whole_seconds(span: Duration) -> u64;

/// `SystemTime::now` reads the system clock. Nothing is claimed of the reading.
pub assume_specification[ std::time::SystemTime::now ]() -> (reading: SystemTime)
;

/// `SystemTime::duration_since` gives the time that passed from `earlier` to
/// `later`, or an error where `earlier` is the later of the two. Nothing is
/// claimed of which it is.
pub assume_specification[ std::time::SystemTime::duration_since ](
    later: &SystemTime,
    earlier: SystemTime,
) -> (elapsed: Result<Duration, SystemTimeError>)
;

/// `Duration::as_secs` gives the whole seconds that the duration holds, the
/// fraction of a second left out.
pub assume_specification[ core::time::Duration::as_secs ](span: &Duration) -> (secs: u64)
    ensures
        secs == whole_seconds(*span),
;

/// `std::time::UNIX_EPOCH`: the start of 1970 in UTC, as a point in time.
#[verifier::external_body]
fn unix_epoch() -> SystemTime {
    std::time::UNIX_EPOCH
}

/// The timestamp that a clock reading stands for: the whole seconds that
/// passed since the epoch, and zero where the clock was found before it.
pub open spec fn timestamp_of(elapsed: Result<Duration, SystemTimeError>) -> u64 {
    match elapsed {
        Ok(span) => whole_seconds(span),
        Err(_) => 0,
    }
}

/// Turns the time elapsed since the epoch into a timestamp. A failed reading
/// counts as the epoch itself.
pub fn timestamp_from(elapsed: Result<Duration, SystemTimeError>) -> (secs: u64)
    ensures
        secs == timestamp_of(elapsed),
{
    match elapsed {
        Ok(span) => span.as_secs(),
        Err(_) => 0,
    }
}

/// The current time as a timestamp: the clock is read once, the reading is
/// measured from the epoch, and the result is the timestamp of what that
/// gave. Which time the clock reads is not known here: two readings need not
/// agree, and nothing orders them.
pub fn unix_now() -> (secs: u64)
    ensures
        exists|elapsed: Result<Duration, SystemTimeError>| secs == #[trigger] timestamp_of(elapsed),
{
    let now = SystemTime::now();
    let elapsed = now.duration_since(unix_epoch());
    let secs = timestamp_from(elapsed);
    assert(secs == timestamp_of(elapsed));
    secs
}

} // verus!
