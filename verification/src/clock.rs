//! The system clock, read without giving up on a clock that is set wrong.

use vstd::prelude::*;

verus! {

/// `std::time::SystemTime`, as a type that Verus carries through unopened.
#[verifier::external_type_specification]
#[verifier::external_body]
pub struct ExSystemTime(std::time::SystemTime);

/// `std::time::SystemTimeError`, as a type that Verus carries through
/// unopened.
#[verifier::external_type_specification]
#[verifier::external_body]
pub struct ExSystemTimeError(std::time::SystemTimeError);

/// `SystemTime::now` of the standard library: the clock's reading, of
/// which nothing is known beforehand.
pub assume_specification[ std::time::SystemTime::now ]() -> std::time::SystemTime;

/// `SystemTime::duration_since` of the standard library: the time from
/// `earlier` to `time`, or an error where `earlier` is the later one.
pub assume_specification[ std::time::SystemTime::duration_since ](
    time: &std::time::SystemTime,
    earlier: std::time::SystemTime,
) -> Result<std::time::Duration, std::time::SystemTimeError>;

/// `Duration::as_secs` of the standard library: the whole seconds of a
/// span of time.
pub assume_specification[ std::time::Duration::as_secs ](span: &std::time::Duration) -> u64;

/// `std::time::UNIX_EPOCH`: the first moment of 1970 in UTC.
#[verifier::external_body]
fn unix_epoch() -> std::time::SystemTime {
    std::time::UNIX_EPOCH
}

/// The time in whole seconds since the Unix epoch, or nothing where the
/// clock is set to a moment before it.
pub fn unix_seconds() -> (seconds: Option<u64>) {
    let now = std::time::SystemTime::now();
    match now.duration_since(unix_epoch()) {
        Ok(span) => Some(span.as_secs()),
        Err(_) => None,
    }
}

} // verus!
