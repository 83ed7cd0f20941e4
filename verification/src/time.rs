//! Plain-value models of the three notions of time the tracker works with:
//! calendar timestamps, times of day with weekdays, and monotonic readings.

use vstd::prelude::*;

verus! {

/// Nanoseconds in one second.
pub const NANOS_PER_SEC: u32 = 1_000_000_000;

/// Seconds in one day.
pub const SECS_PER_DAY: u32 = 86_400;

/// Largest magnitude of the seconds part of a [`Timestamp`] (2^48).
pub const TIMESTAMP_LIMIT: i64 = 281_474_976_710_656;

/// Day of the week, Monday first.
#[derive(Clone, Copy, Debug, PartialEq, Eq, Structural, Hash)]
pub enum Weekday {
    Mon,
    Tue,
    Wed,
    Thu,
    Fri,
    Sat,
    Sun,
}

impl Weekday {
    /// Position of the day in the week: Monday is 0, Sunday is 6.
    pub open spec fn index(self) -> nat {
        match self {
            Weekday::Mon => 0,
            Weekday::Tue => 1,
            Weekday::Wed => 2,
            Weekday::Thu => 3,
            Weekday::Fri => 4,
            Weekday::Sat => 5,
            Weekday::Sun => 6,
        }
    }

    /// The day at a position, if the position is one of 0 to 6.
    pub open spec fn at(n: nat) -> Option<Weekday> {
        if n == 0 {
            Some(Weekday::Mon)
        } else if n == 1 {
            Some(Weekday::Tue)
        } else if n == 2 {
            Some(Weekday::Wed)
        } else if n == 3 {
            Some(Weekday::Thu)
        } else if n == 4 {
            Some(Weekday::Fri)
        } else if n == 5 {
            Some(Weekday::Sat)
        } else if n == 6 {
            Some(Weekday::Sun)
        } else {
            None
        }
    }

    /// Number of days since Monday.
    pub fn num_days_from_monday(&self) -> (n: u32)
        ensures
            n == self.index(),
            n < 7,
    {
        match self {
            Weekday::Mon => 0,
            Weekday::Tue => 1,
            Weekday::Wed => 2,
            Weekday::Thu => 3,
            Weekday::Fri => 4,
            Weekday::Sat => 5,
            Weekday::Sun => 6,
        }
    }

    /// The day that lies `n` days after Monday; `None` when `n` is 7 or more.
    pub fn from_days_from_monday(n: u32) -> (day: Option<Weekday>)
        ensures
            day == Weekday::at(n as nat),
            day.is_some() <==> n < 7,
    {
        match n {
            0 => Some(Weekday::Mon),
            1 => Some(Weekday::Tue),
            2 => Some(Weekday::Wed),
            3 => Some(Weekday::Thu),
            4 => Some(Weekday::Fri),
            5 => Some(Weekday::Sat),
            6 => Some(Weekday::Sun),
            _ => None,
        }
    }
}

/// A time of day: whole seconds since midnight and the nanoseconds within the
/// second. A fraction of a full second or more stands for a leap second.
#[derive(Clone, Copy, Debug, PartialEq, Eq, Structural)]
pub struct TimeOfDay {
    pub secs: u32,
    pub frac: u32,
}

impl TimeOfDay {
    /// A time that exists on a clock face: less than a day, and a leap-second
    /// fraction only in the last second of a minute.
    pub open spec fn wf(self) -> bool {
        &&& self.secs < SECS_PER_DAY
        &&& self.frac < 2 * NANOS_PER_SEC
        &&& (self.frac >= NANOS_PER_SEC ==> self.secs % 60 == 59)
    }

    /// Order of two times of day: by seconds, then by fraction.
    pub open spec fn le(self, other: TimeOfDay) -> bool {
        self.secs < other.secs || (self.secs == other.secs && self.frac <= other.frac)
    }

    /// The time `hour:min:sec` exactly, or `None` when a part is out of range.
    pub fn from_hms_opt(hour: u32, min: u32, sec: u32) -> (t: Option<TimeOfDay>)
        ensures
            (hour < 24 && min < 60 && sec < 60) ==> t == Some(
                TimeOfDay { secs: (hour * 3600 + min * 60 + sec) as u32, frac: 0 },
            ),
            !(hour < 24 && min < 60 && sec < 60) ==> t.is_none(),
            t.is_some() ==> t.unwrap().wf(),
    {
        if hour < 24 && min < 60 && sec < 60 {
            Some(TimeOfDay { secs: hour * 3600 + min * 60 + sec, frac: 0 })
        } else {
            None
        }
    }

    /// Whether this is a time that exists on a clock face.
    pub fn is_well_formed(&self) -> (r: bool)
        ensures
            r == self.wf(),
    {
        self.secs < SECS_PER_DAY && self.frac < 2 * NANOS_PER_SEC && (self.frac < NANOS_PER_SEC
            || self.secs % 60 == 59)
    }

    /// Whether this time is not later than `other`.
    pub fn is_at_or_before(&self, other: &TimeOfDay) -> (r: bool)
        ensures
            r == self.le(*other),
    {
        self.secs < other.secs || (self.secs == other.secs && self.frac <= other.frac)
    }
}

/// A point on the calendar clock: seconds since the Unix epoch and the
/// nanoseconds within the second.
#[derive(Clone, Copy, Debug, PartialEq, Eq, Structural)]
pub struct Timestamp {
    pub secs: i64,
    pub nanos: u32,
}

impl Timestamp {
    /// The seconds lie within the limit and the nanoseconds within one second.
    pub open spec fn wf(self) -> bool {
        &&& -TIMESTAMP_LIMIT <= self.secs <= TIMESTAMP_LIMIT
        &&& self.nanos < NANOS_PER_SEC
    }

    /// The point as a count of nanoseconds since the epoch.
    pub open spec fn total_nanos(self) -> int {
        self.secs * (NANOS_PER_SEC as int) + self.nanos
    }

    /// Order of two points in time.
    pub open spec fn le(self, other: Timestamp) -> bool {
        self.total_nanos() <= other.total_nanos()
    }

    /// The later of two points.
    pub open spec fn later(self, other: Timestamp) -> Timestamp {
        if self.le(other) {
            other
        } else {
            self
        }
    }

    /// Whole seconds from `self` to `end`, rounded down; 0 when `end` is earlier.
    pub open spec fn whole_seconds_until(self, end: Timestamp) -> int {
        if self.le(end) {
            (end.total_nanos() - self.total_nanos()) / (NANOS_PER_SEC as int)
        } else {
            0
        }
    }

    /// The point with these parts, or `None` when they are out of range.
    pub fn new(secs: i64, nanos: u32) -> (t: Option<Timestamp>)
        ensures
            t.is_some() <==> (Timestamp { secs, nanos }).wf(),
            t.is_some() ==> t.unwrap() == (Timestamp { secs, nanos }),
    {
        if -TIMESTAMP_LIMIT <= secs && secs <= TIMESTAMP_LIMIT && nanos < NANOS_PER_SEC {
            Some(Timestamp { secs, nanos })
        } else {
            None
        }
    }

    /// The point at a whole second, if the second lies within the limit.
    pub open spec fn at_second(secs: i64) -> Option<Timestamp> {
        if -TIMESTAMP_LIMIT <= secs <= TIMESTAMP_LIMIT {
            Some(Timestamp { secs, nanos: 0 })
        } else {
            None
        }
    }

    /// The first second of the day (in UTC) that the point lies in.
    pub open spec fn day_start(self) -> int {
        self.secs - (self.secs as int) % (SECS_PER_DAY as int)
    }

    /// The point at a whole second, or `None` when it lies beyond the limit.
    pub fn from_secs(secs: i64) -> (t: Option<Timestamp>)
        ensures
            t == Timestamp::at_second(secs),
            t.is_some() ==> t.unwrap().wf(),
    {
        Timestamp::new(secs, 0)
    }

    /// The whole seconds since the Unix epoch.
    pub fn timestamp(&self) -> (secs: i64)
        ensures
            secs == self.secs,
    {
        self.secs
    }

    /// The first and the last second of the day (in UTC) that the point lies
    /// in, as seconds since the Unix epoch.
    pub fn day_bounds(&self) -> (bounds: (i64, i64))
        requires
            self.wf(),
        ensures
            bounds.0 == self.day_start(),
            bounds.1 == self.day_start() + SECS_PER_DAY - 1,
            bounds.0 <= self.secs <= bounds.1,
    {
        let day: i64 = 86_400;
        if self.secs >= 0 {
            let into: i64 = self.secs % day;
            bounds_pair(self.secs - into)
        } else {
            let back: i64 = -self.secs;
            let over: i64 = back % day;
            proof {
                let q = (back as int) / (day as int);
                vstd::arithmetic::div_mod::lemma_fundamental_div_mod(back as int, day as int);
                if over == 0 {
                    vstd::arithmetic::div_mod::lemma_fundamental_div_mod_converse(
                        self.secs as int,
                        day as int,
                        -q,
                        0,
                    );
                } else {
                    vstd::arithmetic::div_mod::lemma_fundamental_div_mod_converse(
                        self.secs as int,
                        day as int,
                        -q - 1,
                        day - over,
                    );
                }
            }
            if over == 0 {
                bounds_pair(self.secs)
            } else {
                bounds_pair(self.secs - (day - over))
            }
        }
    }

    /// Whether this point is not later than `other`.
    pub fn is_at_or_before(&self, other: &Timestamp) -> (r: bool)
        requires
            self.wf(),
            other.wf(),
        ensures
            r == self.le(*other),
    {
        proof {
            lemma_timestamp_order(*self, *other);
        }
        self.secs < other.secs || (self.secs == other.secs && self.nanos <= other.nanos)
    }

    /// The later of this point and `other`.
    pub fn latest(self, other: Timestamp) -> (r: Timestamp)
        requires
            self.wf(),
            other.wf(),
        ensures
            r == self.later(other),
            r.wf(),
            self.le(r),
            other.le(r),
    {
        if self.is_at_or_before(&other) {
            other
        } else {
            self
        }
    }

    /// Whole seconds that pass from this point to `end`, rounded down. An
    /// `end` that lies before this point counts as no time at all.
    pub fn seconds_until(&self, end: &Timestamp) -> (d: i64)
        requires
            self.wf(),
            end.wf(),
        ensures
            d == self.whole_seconds_until(*end),
            d >= 0,
            self.le(*end) ==> d * (NANOS_PER_SEC as int) <= end.total_nanos() - self.total_nanos()
                < (d + 1) * (NANOS_PER_SEC as int),
    {
        proof {
            lemma_timestamp_order(*self, *end);
        }
        if !self.is_at_or_before(end) {
            0
        } else if end.nanos >= self.nanos {
            let d: i64 = end.secs - self.secs;
            proof {
                lemma_floor_seconds(d as int, (end.nanos - self.nanos) as int);
                assert(end.total_nanos() - self.total_nanos() == d * (NANOS_PER_SEC as int) + (
                end.nanos - self.nanos)) by (nonlinear_arith)
                    requires
                        d == end.secs - self.secs,
                        end.total_nanos() == end.secs * (NANOS_PER_SEC as int) + end.nanos,
                        self.total_nanos() == self.secs * (NANOS_PER_SEC as int) + self.nanos,
                ;
            }
            d
        } else {
            let d: i64 = end.secs - self.secs - 1;
            proof {
                lemma_floor_seconds(
                    d as int,
                    (NANOS_PER_SEC as int) + end.nanos - self.nanos,
                );
                assert(end.total_nanos() - self.total_nanos() == d * (NANOS_PER_SEC as int) + (
                (NANOS_PER_SEC as int) + end.nanos - self.nanos)) by (nonlinear_arith)
                    requires
                        d == end.secs - self.secs - 1,
                        end.total_nanos() == end.secs * (NANOS_PER_SEC as int) + end.nanos,
                        self.total_nanos() == self.secs * (NANOS_PER_SEC as int) + self.nanos,
                ;
            }
            d
        }
    }
}

/// A day's first second together with its last.
fn bounds_pair(start: i64) -> (bounds: (i64, i64))
    requires
        -2 * TIMESTAMP_LIMIT <= start <= TIMESTAMP_LIMIT,
    ensures
        bounds.0 == start,
        bounds.1 == start + SECS_PER_DAY - 1,
{
    (start, start + 86_399)
}

/// Comparing by parts agrees with comparing the nanosecond counts.
pub proof fn lemma_timestamp_order(a: Timestamp, b: Timestamp)
    requires
        a.nanos < NANOS_PER_SEC,
        b.nanos < NANOS_PER_SEC,
    ensures
        a.le(b) <==> (a.secs < b.secs || (a.secs == b.secs && a.nanos <= b.nanos)),
{
    assert(a.secs < b.secs ==> a.secs * (NANOS_PER_SEC as int) + (NANOS_PER_SEC as int) <= b.secs
        * (NANOS_PER_SEC as int)) by (nonlinear_arith);
    assert(b.secs < a.secs ==> b.secs * (NANOS_PER_SEC as int) + (NANOS_PER_SEC as int) <= a.secs
        * (NANOS_PER_SEC as int)) by (nonlinear_arith);
}

/// A count of `q` whole seconds and a rest below one second divides to `q`.
pub proof fn lemma_floor_seconds(q: int, rest: int)
    requires
        0 <= rest < NANOS_PER_SEC,
    ensures
        (q * (NANOS_PER_SEC as int) + rest) / (NANOS_PER_SEC as int) == q,
{
    vstd::arithmetic::div_mod::lemma_fundamental_div_mod_converse(
        q * (NANOS_PER_SEC as int) + rest,
        NANOS_PER_SEC as int,
        q,
        rest,
    );
}

/// A reading of the monotonic clock: nanoseconds since the clock's origin.
#[derive(Clone, Copy, Debug, PartialEq, Eq, Structural)]
pub struct MonoInstant {
    pub nanos: u128,
}

impl MonoInstant {
    /// Whole seconds from `self` to `now`, rounded down; 0 when `now` is earlier.
    pub open spec fn whole_seconds_until(self, now: MonoInstant) -> nat {
        if self.nanos <= now.nanos {
            ((now.nanos - self.nanos) / (NANOS_PER_SEC as int)) as nat
        } else {
            0
        }
    }

    /// The reading taken `secs` whole seconds after the origin.
    pub fn from_secs(secs: u64) -> (t: MonoInstant)
        ensures
            t.nanos == secs * (NANOS_PER_SEC as int),
    {
        assert(secs * (NANOS_PER_SEC as int) <= u64::MAX * (NANOS_PER_SEC as int))
            by (nonlinear_arith)
            requires
                secs <= u64::MAX,
        ;
        let wide: u128 = secs as u128;
        MonoInstant { nanos: wide * 1_000_000_000 }
    }

    /// Whole seconds elapsed from this reading to `now`, rounded down. A `now`
    /// that lies before this reading counts as no time at all.
    pub fn elapsed_secs(&self, now: &MonoInstant) -> (d: u128)
        ensures
            d == self.whole_seconds_until(*now),
    {
        if self.nanos <= now.nanos {
            (now.nanos - self.nanos) / 1_000_000_000
        } else {
            0
        }
    }
}

} // verus!
