//! The schedule compliance engine: per-schedule runtime state, and the rule
//! that turns one evaluation into a verdict and a decision to notify.

use crate::clock::local_now;
use crate::models::{Schedule, ScheduleView};
use crate::text::{contains_text, lowercase, occurs_in, texts};
use crate::time::{MonoInstant, TimeOfDay, Weekday};
use std::collections::HashMap;
use std::time::Instant;
use vstd::prelude::*;

verus! {

broadcast use vstd::std_specs::hash::group_hash_axioms;

/// Seconds that must pass between two notifications for one schedule.
pub const NOTIFICATION_INTERVAL_SECS: u32 = 300;

/// What the engine remembers of one schedule.
#[derive(Debug, Clone, Copy)]
pub struct ScheduleState {
    pub last_check: Option<MonoInstant>,
    pub last_notification: Option<MonoInstant>,
    pub grace_started: Option<MonoInstant>,
    pub consecutive_non_compliant: u32,
}

impl ScheduleState {
    /// The state of a schedule that was never evaluated.
    pub open spec fn fresh() -> ScheduleState {
        ScheduleState {
            last_check: None,
            last_notification: None,
            grace_started: None,
            consecutive_non_compliant: 0,
        }
    }

    /// Whether a check is due at `now`: always before the first check, else
    /// once `interval` whole seconds have passed since the last one.
    pub open spec fn is_due(self, interval: u32, now: MonoInstant) -> bool {
        match self.last_check {
            Some(last) => last.whole_seconds_until(now) >= interval,
            None => true,
        }
    }

    /// The state after a check at `now`.
    pub open spec fn checked(self, now: MonoInstant) -> ScheduleState {
        ScheduleState { last_check: Some(now), ..self }
    }

    /// The state with a grace period running: one that runs already goes on,
    /// else one begins at `now`.
    pub open spec fn grace_begun(self, now: MonoInstant) -> ScheduleState {
        match self.grace_started {
            Some(_) => self,
            None => ScheduleState { grace_started: Some(now), ..self },
        }
    }

    /// The state with no grace period and no count of notifications.
    pub open spec fn grace_reset(self) -> ScheduleState {
        ScheduleState { grace_started: None, consecutive_non_compliant: 0, ..self }
    }

    /// Whether a notification may go out at `now`: not while fewer than
    /// `grace` whole seconds of the grace period have passed, and not within
    /// the notification interval after the last one.
    pub open spec fn may_notify(self, grace: u32, now: MonoInstant) -> bool {
        &&& match self.grace_started {
            Some(started) => started.whole_seconds_until(now) >= grace,
            None => true,
        }
        &&& match self.last_notification {
            Some(last) => last.whole_seconds_until(now) >= NOTIFICATION_INTERVAL_SECS,
            None => true,
        }
    }

    /// The state after a notification at `now`. The count stops at the
    /// largest number it can hold.
    pub open spec fn notified(self, now: MonoInstant) -> ScheduleState {
        ScheduleState {
            last_notification: Some(now),
            consecutive_non_compliant: if self.consecutive_non_compliant < u32::MAX {
                (self.consecutive_non_compliant + 1) as u32
            } else {
                self.consecutive_non_compliant
            },
            ..self
        }
    }

    /// The state after a check at `now` that found the application compliant
    /// or not, and whether to notify. A compliant check ends the grace period.
    /// A non-compliant one starts it if none runs, and notifies once grace
    /// and the notification interval allow.
    pub open spec fn judged(self, grace: u32, compliant: bool, now: MonoInstant) -> (
        ScheduleState,
        bool,
    ) {
        let checked = self.checked(now);
        if compliant {
            (checked.grace_reset(), false)
        } else {
            let waiting = checked.grace_begun(now);
            if waiting.may_notify(grace, now) {
                (waiting.notified(now), true)
            } else {
                (waiting, false)
            }
        }
    }

    /// Whether a check is due at `now`.
    pub fn check_due(&self, interval: u32, now: MonoInstant) -> (due: bool)
        ensures
            due == self.is_due(interval, now),
    {
        match self.last_check {
            Some(last) => last.elapsed_secs(&now) >= interval as u128,
            None => true,
        }
    }

    /// Whether a notification may go out at `now`.
    pub fn notification_allowed(&self, grace: u32, now: MonoInstant) -> (allowed: bool)
        ensures
            allowed == self.may_notify(grace, now),
    {
        let past_grace = match self.grace_started {
            Some(started) => started.elapsed_secs(&now) >= grace as u128,
            None => true,
        };
        let past_interval = match self.last_notification {
            Some(last) => last.elapsed_secs(&now) >= NOTIFICATION_INTERVAL_SECS as u128,
            None => true,
        };
        past_grace && past_interval
    }

    /// Applies a check at `now` with its finding, and tells whether to notify.
    pub fn judge(&mut self, grace: u32, compliant: bool, now: MonoInstant) -> (notify: bool)
        ensures
            (*final(self), notify) == old(self).judged(grace, compliant, now),
    {
        self.last_check = Some(now);
        if compliant {
            self.grace_started = None;
            self.consecutive_non_compliant = 0;
            return false;
        }
        if self.grace_started.is_none() {
            self.grace_started = Some(now);
        }
        let notify = self.notification_allowed(grace, now);
        if notify {
            self.last_notification = Some(now);
            if self.consecutive_non_compliant < u32::MAX {
                self.consecutive_non_compliant = self.consecutive_non_compliant + 1;
            }
        }
        notify
    }
}

impl Default for ScheduleState {
    /// The state of a schedule that was never evaluated.
    fn default() -> (s: ScheduleState)
        ensures
            s == ScheduleState::fresh(),
    {
        ScheduleState {
            last_check: None,
            last_notification: None,
            grace_started: None,
            consecutive_non_compliant: 0,
        }
    }
}

/// The state kept for a schedule, or the fresh state where none is kept.
pub open spec fn entry_of(states: Map<i64, ScheduleState>, id: i64) -> ScheduleState {
    if states.contains_key(id) {
        states[id]
    } else {
        ScheduleState::fresh()
    }
}

/// Whether `current` names one of the expected applications: some expected
/// name occurs in it, letter case aside. With nothing expected, every
/// application does.
pub open spec fn accepts(expected: Seq<Seq<char>>, current: Seq<char>) -> bool {
    expected.len() == 0 || exists|i: int|
        0 <= i < expected.len() && occurs_in(#[trigger] lowercase(expected[i]), lowercase(current))
}

/// Whether one of `names` occurs in `current`, or `names` is empty.
pub open spec fn names_any(names: Seq<Seq<char>>, current: Seq<char>) -> bool {
    names.len() == 0 || exists|i: int|
        0 <= i < names.len() && occurs_in(#[trigger] names[i], current)
}

/// Whether `current` holds one of `names` as a part, or `names` is empty.
/// Letter case counts: callers hand in texts of one case.
pub fn matches_any(current: &str, names: &Vec<String>) -> (found: bool)
    ensures
        found == names_any(texts(names@), current@),
{
    if names.len() == 0 {
        return true;
    }
    let mut i: usize = 0;
    while i < names.len()
        invariant
            i <= names.len(),
            forall|j: int| 0 <= j < i ==> !occurs_in(#[trigger] texts(names@)[j], current@),
        decreases names.len() - i,
    {
        if contains_text(current, names[i].as_str()) {
            assert(occurs_in(texts(names@)[i as int], current@));
            return true;
        }
        i += 1;
    }
    false
}

/// The outcome of one evaluation: the states afterwards, and the pair of
/// "notify" and "compliant". A disabled schedule, a moment outside its window
/// and a check that is not due yet change nothing and count as compliant.
pub open spec fn evaluated(
    states: Map<i64, ScheduleState>,
    schedule: ScheduleView,
    compliant: bool,
    day: Weekday,
    time: TimeOfDay,
    now: MonoInstant,
) -> (Map<i64, ScheduleState>, (bool, bool)) {
    let entry = entry_of(states, schedule.key());
    if !schedule.enabled || !schedule.is_active_at(day, time) || !entry.is_due(
        schedule.check_interval_secs,
        now,
    ) {
        (states, (false, true))
    } else {
        let (next, notify) = entry.judged(schedule.grace_period_secs, compliant, now);
        (states.insert(schedule.key(), next), (notify, compliant))
    }
}

/// Evaluates schedules and keeps the runtime state of each under its id.
/// Entries are made on first use and never removed. The engine is a plain
/// value: a caller that shares it keeps it behind a lock, and each method is
/// then one read-modify-write of one entry.
pub struct SchedulerEngine {
    states: HashMap<i64, ScheduleState>,
    origin: Instant,
}

impl View for SchedulerEngine {
    type V = Map<i64, ScheduleState>;

    closed spec fn view(&self) -> Map<i64, ScheduleState> {
        self.states@
    }
}

impl SchedulerEngine {
    /// An engine that has evaluated nothing yet.
    pub fn new() -> (engine: SchedulerEngine)
        ensures
            engine@ == Map::<i64, ScheduleState>::empty(),
    {
        SchedulerEngine { states: HashMap::new(), origin: Instant::now() }
    }

    /// Reads the monotonic clock: the time since the engine was made.
    pub fn clock(&self) -> (now: MonoInstant) {
        let since = self.origin.elapsed();
        MonoInstant { nanos: since.as_nanos() }
    }

    /// The state kept for a schedule, or the fresh state where none is kept.
    pub fn state_of(&self, schedule_id: i64) -> (state: ScheduleState)
        ensures
            state == entry_of(self@, schedule_id),
    {
        match self.states.get(&schedule_id) {
            Some(state) => *state,
            None => ScheduleState::default(),
        }
    }

    /// Whether the schedule's window is open now, by the local wall clock.
    pub fn is_within_schedule(&self, schedule: &Schedule) -> (within: bool)
        ensures
            exists|day: Weekday, time: TimeOfDay|
                time.wf() && within == #[trigger] schedule@.is_active_at(day, time),
    {
        let (day, time) = local_now();
        schedule.is_active_at(day, time)
    }

    /// Whether the application named `current_app` is one the schedule
    /// expects.
    pub fn is_compliant(&self, schedule: &Schedule, current_app: &str) -> (compliant: bool)
        ensures
            compliant == accepts(schedule@.expected_apps, current_app@),
    {
        let current = current_app.to_lowercase();
        let mut names: Vec<String> = Vec::new();
        let mut i: usize = 0;
        while i < schedule.expected_apps.len()
            invariant
                i <= schedule.expected_apps.len(),
                names@.len() == i,
                forall|j: int|
                    0 <= j < i ==> (#[trigger] names@[j])@ == lowercase(
                        schedule.expected_apps@[j]@,
                    ),
            decreases schedule.expected_apps.len() - i,
        {
            names.push(schedule.expected_apps[i].as_str().to_lowercase());
            i += 1;
        }
        let found = matches_any(current.as_str(), &names);
        proof {
            let expected = schedule@.expected_apps;
            let lowered = texts(names@);
            assert(lowered.len() == expected.len());
            assert forall|j: int| 0 <= j < expected.len() implies lowered[j] == lowercase(
                expected[j],
            ) by {
                assert(names@[j]@ == lowercase(schedule.expected_apps@[j]@));
            }
            if names_any(lowered, current@) && expected.len() > 0 {
                let j = choose|j: int|
                    0 <= j < lowered.len() && occurs_in(#[trigger] lowered[j], current@);
                assert(occurs_in(lowercase(expected[j]), lowercase(current_app@)));
            }
            if accepts(expected, current_app@) && expected.len() > 0 {
                let j = choose|j: int|
                    0 <= j < expected.len() && occurs_in(
                        #[trigger] lowercase(expected[j]),
                        lowercase(current_app@),
                    );
                assert(occurs_in(lowered[j], current@));
            }
        }
        found
    }

    /// Whether a check of the schedule is due at `now`.
    pub fn should_check_at(&self, schedule_id: i64, check_interval_secs: u32, now: MonoInstant) -> (due:
        bool)
        ensures
            due == entry_of(self@, schedule_id).is_due(check_interval_secs, now),
    {
        self.state_of(schedule_id).check_due(check_interval_secs, now)
    }

    /// Whether a check of the schedule is due now.
    pub fn should_check(&self, schedule_id: i64, check_interval_secs: u32) -> (due: bool)
        ensures
            exists|now: MonoInstant|
                due == #[trigger] entry_of(self@, schedule_id).is_due(check_interval_secs, now),
    {
        let now = self.clock();
        self.should_check_at(schedule_id, check_interval_secs, now)
    }

    /// Records a check of the schedule at `now`.
    pub fn mark_checked_at(&mut self, schedule_id: i64, now: MonoInstant)
        ensures
            final(self)@ == old(self)@.insert(
                schedule_id,
                entry_of(old(self)@, schedule_id).checked(now),
            ),
    {
        let mut state = self.state_of(schedule_id);
        state.last_check = Some(now);
        self.states.insert(schedule_id, state);
    }

    /// Records a check of the schedule now.
    pub fn mark_checked(&mut self, schedule_id: i64)
        ensures
            exists|now: MonoInstant|
                final(self)@ == old(self)@.insert(
                    schedule_id,
                    #[trigger] entry_of(old(self)@, schedule_id).checked(now),
                ),
    {
        let now = self.clock();
        self.mark_checked_at(schedule_id, now)
    }

    /// Whether a notification for the schedule may go out at `now`. The
    /// schedule gets an entry if it has none.
    pub fn should_notify_at(&mut self, schedule_id: i64, grace_period_secs: u32, now: MonoInstant) -> (notify:
        bool)
        ensures
            notify == entry_of(old(self)@, schedule_id).may_notify(grace_period_secs, now),
            final(self)@ == old(self)@.insert(schedule_id, entry_of(old(self)@, schedule_id)),
    {
        let state = self.state_of(schedule_id);
        self.states.insert(schedule_id, state);
        state.notification_allowed(grace_period_secs, now)
    }

    /// Whether a notification for the schedule may go out now. The schedule
    /// gets an entry if it has none.
    pub fn should_notify(&mut self, schedule_id: i64, grace_period_secs: u32) -> (notify: bool)
        ensures
            final(self)@ == old(self)@.insert(schedule_id, entry_of(old(self)@, schedule_id)),
            exists|now: MonoInstant|
                notify == #[trigger] entry_of(old(self)@, schedule_id).may_notify(
                    grace_period_secs,
                    now,
                ),
    {
        let now = self.clock();
        self.should_notify_at(schedule_id, grace_period_secs, now)
    }

    /// Starts the schedule's grace period at `now` unless one runs already.
    pub fn start_grace_at(&mut self, schedule_id: i64, now: MonoInstant)
        ensures
            final(self)@ == old(self)@.insert(
                schedule_id,
                entry_of(old(self)@, schedule_id).grace_begun(now),
            ),
    {
        let mut state = self.state_of(schedule_id);
        if state.grace_started.is_none() {
            state.grace_started = Some(now);
        }
        self.states.insert(schedule_id, state);
    }

    /// Starts the schedule's grace period now unless one runs already.
    pub fn start_grace(&mut self, schedule_id: i64)
        ensures
            exists|now: MonoInstant|
                final(self)@ == old(self)@.insert(
                    schedule_id,
                    #[trigger] entry_of(old(self)@, schedule_id).grace_begun(now),
                ),
    {
        let now = self.clock();
        self.start_grace_at(schedule_id, now)
    }

    /// Ends the schedule's grace period and clears its count of
    /// notifications. A schedule without an entry stays without one.
    pub fn reset_grace(&mut self, schedule_id: i64)
        ensures
            old(self)@.contains_key(schedule_id) ==> final(self)@ == old(self)@.insert(
                schedule_id,
                old(self)@[schedule_id].grace_reset(),
            ),
            !old(self)@.contains_key(schedule_id) ==> final(self)@ == old(self)@,
    {
        if self.states.contains_key(&schedule_id) {
            let mut state = self.state_of(schedule_id);
            state.grace_started = None;
            state.consecutive_non_compliant = 0;
            self.states.insert(schedule_id, state);
        }
    }

    /// Records a notification for the schedule at `now`.
    pub fn mark_notified_at(&mut self, schedule_id: i64, now: MonoInstant)
        ensures
            final(self)@ == old(self)@.insert(
                schedule_id,
                entry_of(old(self)@, schedule_id).notified(now),
            ),
    {
        let mut state = self.state_of(schedule_id);
        state.last_notification = Some(now);
        if state.consecutive_non_compliant < u32::MAX {
            state.consecutive_non_compliant = state.consecutive_non_compliant + 1;
        }
        self.states.insert(schedule_id, state);
    }

    /// Records a notification for the schedule now.
    pub fn mark_notified(&mut self, schedule_id: i64)
        ensures
            exists|now: MonoInstant|
                final(self)@ == old(self)@.insert(
                    schedule_id,
                    #[trigger] entry_of(old(self)@, schedule_id).notified(now),
                ),
    {
        let now = self.clock();
        self.mark_notified_at(schedule_id, now)
    }

    /// Applies a check of the schedule at `now` with its finding. Returns
    /// whether to notify, and the finding.
    pub fn record_check(
        &mut self,
        schedule_id: i64,
        grace_period_secs: u32,
        compliant: bool,
        now: MonoInstant,
    ) -> (verdict: (bool, bool))
        ensures
            final(self)@ == old(self)@.insert(
                schedule_id,
                entry_of(old(self)@, schedule_id).judged(grace_period_secs, compliant, now).0,
            ),
            verdict == (
                entry_of(old(self)@, schedule_id).judged(grace_period_secs, compliant, now).1,
                compliant,
            ),
    {
        let mut state = self.state_of(schedule_id);
        let notify = state.judge(grace_period_secs, compliant, now);
        self.states.insert(schedule_id, state);
        (notify, compliant)
    }

    /// Evaluates the schedule for the moment given by `day`, `time` and the
    /// monotonic reading `now`. Returns whether to notify, and whether the
    /// application counts as compliant.
    pub fn evaluate_at(
        &mut self,
        schedule: &Schedule,
        current_app: &str,
        day: Weekday,
        time: TimeOfDay,
        now: MonoInstant,
    ) -> (verdict: (bool, bool))
        ensures
            (final(self)@, verdict) == evaluated(
                old(self)@,
                schedule@,
                accepts(schedule@.expected_apps, current_app@),
                day,
                time,
                now,
            ),
            forall|id: i64| old(self)@.contains_key(id) ==> final(self)@.contains_key(id),
    {
        let schedule_id = schedule.key();
        if !schedule.enabled {
            return (false, true);
        }
        if !schedule.is_active_at(day, time) {
            return (false, true);
        }
        if !self.should_check_at(schedule_id, schedule.check_interval_secs, now) {
            return (false, true);
        }
        let compliant = self.is_compliant(schedule, current_app);
        self.record_check(schedule_id, schedule.grace_period_secs, compliant, now)
    }

    /// Evaluates the schedule now: the window by the local wall clock, the
    /// intervals by the monotonic clock. Returns whether to notify, and
    /// whether the application counts as compliant.
    pub fn evaluate(&mut self, schedule: &Schedule, current_app: &str) -> (verdict: (bool, bool))
        ensures
            exists|day: Weekday, time: TimeOfDay, now: MonoInstant|
                time.wf() && (final(self)@, verdict) == #[trigger] evaluated(
                    old(self)@,
                    schedule@,
                    accepts(schedule@.expected_apps, current_app@),
                    day,
                    time,
                    now,
                ),
            forall|id: i64| old(self)@.contains_key(id) ==> final(self)@.contains_key(id),
    {
        let (day, time) = local_now();
        let now = self.clock();
        self.evaluate_at(schedule, current_app, day, time, now)
    }
}

impl Default for SchedulerEngine {
    /// An engine that has evaluated nothing yet.
    fn default() -> (engine: SchedulerEngine)
        ensures
            engine@ == Map::<i64, ScheduleState>::empty(),
    {
        SchedulerEngine::new()
    }
}

/// One moment of evaluation: the weekday and time of day on the wall clock,
/// and the reading of the monotonic clock.
pub struct Moment {
    pub day: Weekday,
    pub time: TimeOfDay,
    pub now: MonoInstant,
}

/// The states after evaluating one schedule at each of `moments` in turn,
/// with the same finding each time.
pub open spec fn evaluated_all(
    states: Map<i64, ScheduleState>,
    schedule: ScheduleView,
    compliant: bool,
    moments: Seq<Moment>,
) -> Map<i64, ScheduleState>
    decreases moments.len(),
{
    if moments.len() == 0 {
        states
    } else {
        evaluated(
            evaluated_all(states, schedule, compliant, moments.drop_last()),
            schedule,
            compliant,
            moments.last().day,
            moments.last().time,
            moments.last().now,
        ).0
    }
}

/// An evaluation that finds the application compliant answers "do not
/// notify, compliant". It never starts a grace period; once it gets past the
/// rate limit it ends the one that runs and clears the count. The states of
/// other schedules stay as they are, and no entry is lost.
pub proof fn lemma_compliant_evaluation(
    states: Map<i64, ScheduleState>,
    schedule: ScheduleView,
    day: Weekday,
    time: TimeOfDay,
    now: MonoInstant,
)
    ensures
        evaluated(states, schedule, true, day, time, now).1 == (false, true),
        entry_of(states, schedule.key()).grace_started.is_none() ==> entry_of(
            evaluated(states, schedule, true, day, time, now).0,
            schedule.key(),
        ).grace_started.is_none(),
        schedule.enabled && schedule.is_active_at(day, time) && entry_of(
            states,
            schedule.key(),
        ).is_due(schedule.check_interval_secs, now) ==> entry_of(
            evaluated(states, schedule, true, day, time, now).0,
            schedule.key(),
        ).grace_started.is_none() && entry_of(
            evaluated(states, schedule, true, day, time, now).0,
            schedule.key(),
        ).consecutive_non_compliant == 0,
        forall|id: i64|
            id != schedule.key() ==> #[trigger] entry_of(
                evaluated(states, schedule, true, day, time, now).0,
                id,
            ) == entry_of(states, id),
        forall|id: i64|
            states.contains_key(id) ==> #[trigger] evaluated(
                states,
                schedule,
                true,
                day,
                time,
                now,
            ).0.contains_key(id),
{
}

/// However often a schedule is evaluated while the application is compliant,
/// every evaluation answers "do not notify, compliant" and no grace period
/// starts.
pub proof fn lemma_compliant_evaluations(
    states: Map<i64, ScheduleState>,
    schedule: ScheduleView,
    moments: Seq<Moment>,
)
    requires
        entry_of(states, schedule.key()).grace_started.is_none(),
    ensures
        entry_of(
            evaluated_all(states, schedule, true, moments),
            schedule.key(),
        ).grace_started.is_none(),
        forall|i: int|
            0 <= i < moments.len() ==> (#[trigger] evaluated(
                evaluated_all(states, schedule, true, moments.take(i)),
                schedule,
                true,
                moments[i].day,
                moments[i].time,
                moments[i].now,
            )).1 == (false, true),
    decreases moments.len(),
{
    if moments.len() > 0 {
        lemma_compliant_evaluations(states, schedule, moments.drop_last());
        let before = evaluated_all(states, schedule, true, moments.drop_last());
        lemma_compliant_evaluation(
            before,
            schedule,
            moments.last().day,
            moments.last().time,
            moments.last().now,
        );
    }
    assert forall|i: int| 0 <= i < moments.len() implies (#[trigger] evaluated(
        evaluated_all(states, schedule, true, moments.take(i)),
        schedule,
        true,
        moments[i].day,
        moments[i].time,
        moments[i].now,
    )).1 == (false, true) by {
        lemma_compliant_evaluation(
            evaluated_all(states, schedule, true, moments.take(i)),
            schedule,
            moments[i].day,
            moments[i].time,
            moments[i].now,
        );
    }
}

} // verus!
