//! One tick of the tracker after the sample is in. Whenever an application
//! is in the foreground, every enabled schedule is evaluated; the engine's
//! own check interval is the only throttle. This module tells what follows
//! from each verdict.

use crate::clock::local_now;
use crate::models::{schedule_views, Schedule, ScheduleView};
use crate::scheduler::{accepts, evaluated, SchedulerEngine, ScheduleState};
use crate::text::{join_texts, join_with};
use crate::time::{MonoInstant, TimeOfDay, Weekday};
use vstd::prelude::*;

verus! {

/// Title of the alert for a schedule that is not kept.
pub const ALERT_TITLE: &'static str = "Timewarden - Schedule Alert";

/// The text of the alert: the application in use, the schedule's name, and
/// the applications it expects.
pub open spec fn alert_text(app: Seq<char>, schedule: ScheduleView) -> Seq<char> {
    "You're using "@ + app + " during '"@ + schedule.name + "'. Expected: "@ + join_with(
        schedule.expected_apps,
        ", "@,
    )
}

/// Writes the text of the alert for a schedule that is not kept.
pub fn alert_body(app_name: &str, schedule: &Schedule) -> (body: String)
    ensures
        body@ == alert_text(app_name@, schedule@),
{
    let expected = join_texts(&schedule.expected_apps, ", ");
    let mut body = "You're using ".to_string();
    body.push_str(app_name);
    body.push_str(" during '");
    body.push_str(schedule.name.as_str());
    body.push_str("'. Expected: ");
    body.push_str(expected.as_str());
    body
}

/// What follows from the verdict on one schedule.
#[derive(Debug, Clone)]
pub struct ScheduleOutcome {
    /// The key of the schedule.
    pub schedule_id: i64,
    /// Whether the application counts as compliant; a record is written to
    /// the compliance log when it does not.
    pub is_compliant: bool,
    /// The text of the alert to raise, if one is to be raised.
    pub alert: Option<String>,
}

/// What a [`ScheduleOutcome`] holds.
pub struct OutcomeView {
    pub schedule_id: i64,
    pub is_compliant: bool,
    pub alert: Option<Seq<char>>,
}

impl View for ScheduleOutcome {
    type V = OutcomeView;

    open spec fn view(&self) -> OutcomeView {
        OutcomeView {
            schedule_id: self.schedule_id,
            is_compliant: self.is_compliant,
            alert: match self.alert {
                Some(text) => Some(text@),
                None => None,
            },
        }
    }
}

/// The views of a list of outcomes, in order.
pub open spec fn outcome_views(v: Seq<ScheduleOutcome>) -> Seq<OutcomeView> {
    v.map_values(|o: ScheduleOutcome| o@)
}

/// What follows from a verdict ("notify", "compliant") on a schedule.
pub open spec fn outcome_of(schedule: ScheduleView, app: Seq<char>, verdict: (bool, bool)) -> OutcomeView {
    OutcomeView {
        schedule_id: schedule.key(),
        is_compliant: verdict.1,
        alert: if verdict.0 {
            Some(alert_text(app, schedule))
        } else {
            None
        },
    }
}

/// The engine's states and the outcomes after the schedules have been
/// evaluated one after the other at the same moment.
pub open spec fn checked_all(
    states: Map<i64, ScheduleState>,
    schedules: Seq<ScheduleView>,
    app: Seq<char>,
    day: Weekday,
    time: TimeOfDay,
    now: MonoInstant,
) -> (Map<i64, ScheduleState>, Seq<OutcomeView>)
    decreases schedules.len(),
{
    if schedules.len() == 0 {
        (states, Seq::empty())
    } else {
        let (before, outcomes) = checked_all(states, schedules.drop_last(), app, day, time, now);
        let (after, verdict) = evaluated(
            before,
            schedules.last(),
            accepts(schedules.last().expected_apps, app),
            day,
            time,
            now,
        );
        (after, outcomes.push(outcome_of(schedules.last(), app, verdict)))
    }
}

/// The outcome of a verdict ("notify", "compliant") on a schedule.
pub fn outcome(schedule: &Schedule, app_name: &str, verdict: (bool, bool)) -> (result:
    ScheduleOutcome)
    ensures
        result@ == outcome_of(schedule@, app_name@, verdict),
{
    let alert = if verdict.0 {
        Some(alert_body(app_name, schedule))
    } else {
        None
    };
    ScheduleOutcome { schedule_id: schedule.key(), is_compliant: verdict.1, alert }
}

/// Evaluates the schedules one after the other for the moment given by
/// `day`, `time` and the monotonic reading `now`, and tells for each what
/// follows.
pub fn check_schedules_at(
    engine: &mut SchedulerEngine,
    schedules: &Vec<Schedule>,
    app_name: &str,
    day: Weekday,
    time: TimeOfDay,
    now: MonoInstant,
) -> (outcomes: Vec<ScheduleOutcome>)
    ensures
        (final(engine)@, outcome_views(outcomes@)) == checked_all(
            old(engine)@,
            schedule_views(schedules@),
            app_name@,
            day,
            time,
            now,
        ),
{
    let ghost all = schedule_views(schedules@);
    let mut outcomes: Vec<ScheduleOutcome> = Vec::new();
    let mut i: usize = 0;
    assert(outcome_views(outcomes@) =~= Seq::<OutcomeView>::empty());
    while i < schedules.len()
        invariant
            i <= schedules.len(),
            all == schedule_views(schedules@),
            (engine@, outcome_views(outcomes@)) == checked_all(
                old(engine)@,
                all.take(i as int),
                app_name@,
                day,
                time,
                now,
            ),
        decreases schedules.len() - i,
    {
        let ghost done = outcome_views(outcomes@);
        proof {
            let after = all.take(i + 1);
            assert(after.drop_last() =~= all.take(i as int));
            assert(after.last() == schedules@[i as int]@);
        }
        let verdict = engine.evaluate_at(&schedules[i], app_name, day, time, now);
        outcomes.push(outcome(&schedules[i], app_name, verdict));
        assert(outcome_views(outcomes@) =~= done.push(
            outcome_of(schedules@[i as int]@, app_name@, verdict),
        ));
        i += 1;
    }
    assert(all.take(i as int) =~= all);
    outcomes
}

/// Evaluates the schedules one after the other now: the window by the local
/// wall clock, the intervals by the monotonic clock, both read once.
pub fn check_schedules(engine: &mut SchedulerEngine, schedules: &Vec<Schedule>, app_name: &str) -> (outcomes:
    Vec<ScheduleOutcome>)
    ensures
        exists|day: Weekday, time: TimeOfDay, now: MonoInstant|
            time.wf() && (final(engine)@, outcome_views(outcomes@)) == #[trigger] checked_all(
                old(engine)@,
                schedule_views(schedules@),
                app_name@,
                day,
                time,
                now,
            ),
{
    let (day, time) = local_now();
    let now = engine.clock();
    check_schedules_at(engine, schedules, app_name, day, time, now)
}

} // verus!
