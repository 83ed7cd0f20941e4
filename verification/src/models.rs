//! The records that flow through the tracker, each with its mathematical view.

use crate::text::texts;
use crate::time::{TimeOfDay, Timestamp, Weekday};
use vstd::prelude::*;

verus! {

/// The characters of an optional string.
pub open spec fn opt_text(o: Option<String>) -> Option<Seq<char>> {
    match o {
        Some(s) => Some(s@),
        None => None,
    }
}

/// Identity of the application in the foreground.
#[derive(Debug, Clone)]
pub struct AppInfo {
    pub process_name: String,
    pub app_title: Option<String>,
    pub bundle_id: Option<String>,
}

/// What an [`AppInfo`] holds.
pub struct AppInfoView {
    pub process_name: Seq<char>,
    pub app_title: Option<Seq<char>>,
    pub bundle_id: Option<Seq<char>>,
}

impl View for AppInfo {
    type V = AppInfoView;

    open spec fn view(&self) -> AppInfoView {
        AppInfoView {
            process_name: self.process_name@,
            app_title: opt_text(self.app_title),
            bundle_id: opt_text(self.bundle_id),
        }
    }
}

/// The view of an optional application identity.
pub open spec fn opt_app(o: Option<AppInfo>) -> Option<AppInfoView> {
    match o {
        Some(a) => Some(a@),
        None => None,
    }
}

/// A span of continuous attention to one application, or of idleness.
#[derive(Debug, Clone)]
pub struct Session {
    pub id: Option<i64>,
    pub app_id: String,
    pub app_name: Option<String>,
    pub start_time: Timestamp,
    pub end_time: Option<Timestamp>,
    pub duration_seconds: Option<i64>,
    pub is_idle: bool,
}

/// What a [`Session`] holds.
pub struct SessionView {
    pub id: Option<i64>,
    pub app_id: Seq<char>,
    pub app_name: Option<Seq<char>>,
    pub start_time: Timestamp,
    pub end_time: Option<Timestamp>,
    pub duration_seconds: Option<i64>,
    pub is_idle: bool,
}

impl SessionView {
    /// A closed session: it ends no earlier than it starts, and its duration
    /// is the whole seconds between the two.
    pub open spec fn is_closed(self) -> bool {
        &&& self.start_time.wf()
        &&& self.end_time.is_some()
        &&& self.end_time.unwrap().wf()
        &&& self.start_time.le(self.end_time.unwrap())
        &&& self.duration_seconds.is_some()
        &&& self.duration_seconds.unwrap() == self.start_time.whole_seconds_until(
            self.end_time.unwrap(),
        )
    }

    /// Nanoseconds from the start of a closed session to its end.
    pub open spec fn span_nanos(self) -> int {
        self.end_time.unwrap().total_nanos() - self.start_time.total_nanos()
    }
}

impl View for Session {
    type V = SessionView;

    open spec fn view(&self) -> SessionView {
        SessionView {
            id: self.id,
            app_id: self.app_id@,
            app_name: opt_text(self.app_name),
            start_time: self.start_time,
            end_time: self.end_time,
            duration_seconds: self.duration_seconds,
            is_idle: self.is_idle,
        }
    }
}

impl Session {
    /// The session kept in the store under `id`. Times are stored as whole
    /// seconds. A start that is out of range is replaced by `now`, an end that
    /// is out of range is dropped.
    pub fn from_stored(
        id: i64,
        app_id: String,
        app_name: Option<String>,
        start_secs: i64,
        end_secs: Option<i64>,
        duration_seconds: Option<i64>,
        is_idle: bool,
        now: Timestamp,
    ) -> (session: Session)
        ensures
            session@ == (SessionView {
                id: Some(id),
                app_id: app_id@,
                app_name: opt_text(app_name),
                start_time: match Timestamp::at_second(start_secs) {
                    Some(t) => t,
                    None => now,
                },
                end_time: match end_secs {
                    Some(secs) => Timestamp::at_second(secs),
                    None => None,
                },
                duration_seconds,
                is_idle,
            }),
    {
        let start_time = match Timestamp::from_secs(start_secs) {
            Some(t) => t,
            None => now,
        };
        let end_time = match end_secs {
            Some(secs) => Timestamp::from_secs(secs),
            None => None,
        };
        Session { id: Some(id), app_id, app_name, start_time, end_time, duration_seconds, is_idle }
    }
}

/// The views of a list of sessions, in order.
pub open spec fn session_views(v: Seq<Session>) -> Seq<SessionView> {
    v.map_values(|s: Session| s@)
}

/// A recurring time window with the applications expected in it.
#[derive(Debug, Clone)]
pub struct Schedule {
    pub id: Option<i64>,
    pub name: String,
    pub start_time: TimeOfDay,
    pub end_time: TimeOfDay,
    pub days: Vec<Weekday>,
    pub expected_apps: Vec<String>,
    pub check_interval_secs: u32,
    pub grace_period_secs: u32,
    pub enabled: bool,
}

/// What a [`Schedule`] holds.
pub struct ScheduleView {
    pub id: Option<i64>,
    pub name: Seq<char>,
    pub start_time: TimeOfDay,
    pub end_time: TimeOfDay,
    pub days: Seq<Weekday>,
    pub expected_apps: Seq<Seq<char>>,
    pub check_interval_secs: u32,
    pub grace_period_secs: u32,
    pub enabled: bool,
}

impl View for Schedule {
    type V = ScheduleView;

    open spec fn view(&self) -> ScheduleView {
        ScheduleView {
            id: self.id,
            name: self.name@,
            start_time: self.start_time,
            end_time: self.end_time,
            days: self.days@,
            expected_apps: texts(self.expected_apps@),
            check_interval_secs: self.check_interval_secs,
            grace_period_secs: self.grace_period_secs,
            enabled: self.enabled,
        }
    }
}

/// The views of a list of schedules, in order.
pub open spec fn schedule_views(v: Seq<Schedule>) -> Seq<ScheduleView> {
    v.map_values(|s: Schedule| s@)
}

impl ScheduleView {
    /// Whether the window is open on `day` at `time`. A window whose start is
    /// later than its end runs over midnight.
    pub open spec fn is_active_at(self, day: Weekday, time: TimeOfDay) -> bool {
        &&& self.days.contains(day)
        &&& if self.start_time.le(self.end_time) {
            self.start_time.le(time) && time.le(self.end_time)
        } else {
            self.start_time.le(time) || time.le(self.end_time)
        }
    }

    /// The key under which the engine keeps the schedule's runtime state.
    pub open spec fn key(self) -> i64 {
        match self.id {
            Some(id) => id,
            None => 0,
        }
    }
}

impl Default for Schedule {
    /// An enabled, unnamed schedule for working days from 09:00 to 17:00 that
    /// expects no particular application, checked every 300 seconds with 60
    /// seconds of grace.
    fn default() -> (s: Schedule)
        ensures
            s@ == (ScheduleView {
                id: None,
                name: Seq::empty(),
                start_time: TimeOfDay { secs: 32_400, frac: 0 },
                end_time: TimeOfDay { secs: 61_200, frac: 0 },
                days: seq![Weekday::Mon, Weekday::Tue, Weekday::Wed, Weekday::Thu, Weekday::Fri],
                expected_apps: Seq::empty(),
                check_interval_secs: 300,
                grace_period_secs: 60,
                enabled: true,
            }),
    {
        let days = vec![Weekday::Mon, Weekday::Tue, Weekday::Wed, Weekday::Thu, Weekday::Fri];
        let s = Schedule {
            id: None,
            name: String::new(),
            start_time: TimeOfDay { secs: 32_400, frac: 0 },
            end_time: TimeOfDay { secs: 61_200, frac: 0 },
            days,
            expected_apps: Vec::new(),
            check_interval_secs: 300,
            grace_period_secs: 60,
            enabled: true,
        };
        assert(s@.days =~= seq![
            Weekday::Mon,
            Weekday::Tue,
            Weekday::Wed,
            Weekday::Thu,
            Weekday::Fri,
        ]);
        assert(s@.expected_apps =~= Seq::empty());
        s
    }
}

impl Schedule {
    /// Whether the schedule's window is open on `day` at `time`.
    pub fn is_active_at(&self, day: Weekday, time: TimeOfDay) -> (r: bool)
        ensures
            r == self@.is_active_at(day, time),
    {
        let mut listed = false;
        let mut i: usize = 0;
        while i < self.days.len()
            invariant
                i <= self.days.len(),
                listed == self.days@.take(i as int).contains(day),
            decreases self.days.len() - i,
        {
            if self.days[i] == day {
                listed = true;
            }
            proof {
                let prev = self.days@.take(i as int);
                let next = self.days@.take(i + 1);
                assert(next =~= prev.push(self.days@[i as int]));
                if prev.contains(day) {
                    let j = choose|j: int| 0 <= j < prev.len() && prev[j] == day;
                    assert(next[j] == day);
                }
                if self.days@[i as int] == day {
                    assert(next[i as int] == day);
                }
            }
            i += 1;
        }
        assert(self.days@.take(i as int) =~= self.days@);
        if !listed {
            return false;
        }
        if self.start_time.is_at_or_before(&self.end_time) {
            self.start_time.is_at_or_before(&time) && time.is_at_or_before(&self.end_time)
        } else {
            self.start_time.is_at_or_before(&time) || time.is_at_or_before(&self.end_time)
        }
    }

    /// The key under which the engine keeps the schedule's runtime state: the
    /// schedule's id, or 0 for a schedule that has none yet.
    pub fn key(&self) -> (k: i64)
        ensures
            k == self@.key(),
    {
        match self.id {
            Some(id) => id,
            None => 0,
        }
    }
}

/// One record of a compliance check.
#[derive(Debug, Clone)]
pub struct ComplianceLog {
    pub id: Option<i64>,
    pub schedule_id: i64,
    pub timestamp: Timestamp,
    pub is_compliant: bool,
    pub current_app: Option<String>,
}

/// What a [`ComplianceLog`] holds.
pub struct ComplianceLogView {
    pub id: Option<i64>,
    pub schedule_id: i64,
    pub timestamp: Timestamp,
    pub is_compliant: bool,
    pub current_app: Option<Seq<char>>,
}

impl View for ComplianceLog {
    type V = ComplianceLogView;

    open spec fn view(&self) -> ComplianceLogView {
        ComplianceLogView {
            id: self.id,
            schedule_id: self.schedule_id,
            timestamp: self.timestamp,
            is_compliant: self.is_compliant,
            current_app: opt_text(self.current_app),
        }
    }
}

impl ComplianceLog {
    /// The record kept in the store under `id`. The time is stored as whole
    /// seconds; one that is out of range is replaced by `now`.
    pub fn from_stored(
        id: i64,
        schedule_id: i64,
        timestamp_secs: i64,
        is_compliant: bool,
        current_app: Option<String>,
        now: Timestamp,
    ) -> (log: ComplianceLog)
        ensures
            log@ == (ComplianceLogView {
                id: Some(id),
                schedule_id,
                timestamp: match Timestamp::at_second(timestamp_secs) {
                    Some(t) => t,
                    None => now,
                },
                is_compliant,
                current_app: opt_text(current_app),
            }),
    {
        let timestamp = match Timestamp::from_secs(timestamp_secs) {
            Some(t) => t,
            None => now,
        };
        ComplianceLog { id: Some(id), schedule_id, timestamp, is_compliant, current_app }
    }
}

} // verus!
