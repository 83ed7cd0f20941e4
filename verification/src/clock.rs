//! The clocks the tracker reads. Nothing here is proved: each item states what
//! is taken on trust from `chrono` and from the standard library.

use crate::time::{TimeOfDay, Timestamp, Weekday};
use chrono::{Datelike, Timelike};
use vstd::prelude::*;

verus! {

/// Reads the calendar clock with `chrono::Utc::now` and splits the reading
/// into whole seconds since the Unix epoch (`DateTime::timestamp`) and the
/// nanoseconds within the second (`DateTime::timestamp_subsec_nanos`).
///
/// Trusted: the reading is well formed. `Utc::now` builds its result from a
/// `std::time::Duration` since the epoch, so the nanoseconds stay below one
/// second, and `timestamp` is a day count that fits `i32` times 86,400 plus
/// the seconds of one day, which is less than 2^48 in magnitude. Nothing is
/// claimed about which point in time comes back. `Utc::now` panics on a
/// machine whose clock is set before 1970.
#[verifier::external_body]
pub(crate) fn utc_now() -> (now: Timestamp)
    ensures
        now.wf(),
{
    let now = chrono::Utc::now();
    Timestamp { secs: now.timestamp(), nanos: now.timestamp_subsec_nanos() }
}

/// Reads the local wall clock with `chrono::Local::now` and hands out the
/// weekday (`Datelike::weekday`) and the time of day (`DateTime::time`, as
/// `Timelike::num_seconds_from_midnight` and `Timelike::nanosecond`).
///
/// Trusted: the time of day is well formed. `Local::now` shifts the reading
/// of `Utc::now` by the zone's offset: the seconds are taken modulo one day,
/// and the fraction is that of the reading, which stays below one second.
/// Nothing is claimed about which day and time come back: they depend on the
/// moment and on the time zone of the machine.
#[verifier::external_body]
pub(crate) fn local_now() -> (now: (Weekday, TimeOfDay))
    ensures
        now.1.wf(),
{
    let now = chrono::Local::now();
    let time = now.time();
    let day = match now.weekday() {
        chrono::Weekday::Mon => Weekday::Mon,
        chrono::Weekday::Tue => Weekday::Tue,
        chrono::Weekday::Wed => Weekday::Wed,
        chrono::Weekday::Thu => Weekday::Thu,
        chrono::Weekday::Fri => Weekday::Fri,
        chrono::Weekday::Sat => Weekday::Sat,
        chrono::Weekday::Sun => Weekday::Sun,
    };
    (day, TimeOfDay { secs: time.num_seconds_from_midnight(), frac: time.nanosecond() })
}

/// `std::time::Instant`, a reading of the monotonic clock that can only be
/// compared with other readings. Carried as an opaque value.
#[verifier::external_type_specification]
#[verifier::external_body]
pub struct ExInstant(std::time::Instant);

/// `Instant::now` reads the monotonic clock. Nothing is claimed of the reading.
pub assume_specification[ std::time::Instant::now ]() -> (origin: std::time::Instant);

/// `Instant::elapsed` measures the time since the reading was taken. Nothing
/// is claimed of the measure.
pub assume_specification[ std::time::Instant::elapsed ](origin: &std::time::Instant) -> (d:
    core::time::Duration);

/// `Duration::as_nanos` gives a duration as a count of nanoseconds. A
/// duration is opaque here, so nothing is claimed of the count.
pub assume_specification[ core::time::Duration::as_nanos ](d: &core::time::Duration) -> (n: u128);

} // verus!
