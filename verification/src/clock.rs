//! The parts of the standard library's clock types that the crate relies on.

use std::time::{Duration, SystemTime};

use vstd::prelude::*;

verus! {

/// The standard library's wall-clock reading, carried through unopened.
#[verifier::external_type_specification]
#[verifier::external_body]
pub struct ExSystemTime(SystemTime);

/// The nanoseconds from the Unix epoch to a wall-clock reading, negative before the epoch.
pub uninterp spec fn epoch_nanos(time: SystemTime) -> int;

/// The length of a duration in nanoseconds.
pub uninterp spec fn duration_nanos(duration: Duration) -> nat;

/// The longest duration there is: `u64::MAX` seconds and 999 999 999 nanoseconds.
pub open spec fn longest_duration() -> nat {
    18_446_744_073_709_551_615_999_999_999
}

/// `SystemTime::now`. What the clock reads is not a function of anything here, so nothing is
/// claimed of it.
pub assume_specification[ SystemTime::now ]() -> SystemTime;

/// `SystemTime::duration_since` with the Unix epoch: the distance to the epoch, as `Ok` at or
/// after it, and as the distance that the error carries before it.
#[verifier::external_body]
pub(crate) fn since_epoch(time: SystemTime) -> (distance: Result<Duration, Duration>)
    ensures
        match distance {
            Ok(after) => epoch_nanos(time) == duration_nanos(after),
            Err(before) => epoch_nanos(time) == -duration_nanos(before),
        },
{
    match time.duration_since(std::time::UNIX_EPOCH) {
        Ok(after) => Ok(after),
        Err(error) => Err(error.duration()),
    }
}

/// `Duration::as_nanos`: the whole length in nanoseconds. A duration is a `u64` of seconds and
/// less than one second of nanoseconds, which bounds it.
pub assume_specification[ Duration::as_nanos ](duration: &Duration) -> (nanos: u128)
    ensures
        nanos == duration_nanos(*duration),
        nanos <= longest_duration(),
;

/// `Duration::from_secs`: that many whole seconds.
pub assume_specification[ Duration::from_secs ](secs: u64) -> (duration: Duration)
    ensures
        duration_nanos(duration) == secs * 1_000_000_000,
;

/// `Duration::from_millis`: that many whole milliseconds.
pub assume_specification[ Duration::from_millis ](millis: u64) -> (duration: Duration)
    ensures
        duration_nanos(duration) == millis * 1_000_000,
;

/// `Duration::new`: that many seconds and nanoseconds. More than a second's worth of nanoseconds
/// would carry over, and could overflow the seconds, so it is left out.
pub assume_specification[ Duration::new ](secs: u64, nanos: u32) -> (duration: Duration)
    requires
        nanos < 1_000_000_000,
    ensures
        duration_nanos(duration) == secs * 1_000_000_000 + nanos,
;

/// The duration of a given length.
pub(crate) fn duration_from_nanos(nanos: u128) -> (duration: Duration)
    requires
        nanos <= longest_duration(),
    ensures
        duration_nanos(duration) == nanos,
{
    let secs: u128 = nanos / 1_000_000_000;
    let rest: u128 = nanos % 1_000_000_000;
    Duration::new(secs as u64, rest as u32)
}

}
