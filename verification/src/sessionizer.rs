//! The sessionizer: a state machine that turns one activity sample per tick
//! into closed, non-overlapping usage sessions.

use crate::clock::utc_now;
use crate::models::{
    opt_app, opt_text, session_views, AppInfo, AppInfoView, Session, SessionView,
};
use crate::time::Timestamp;
use vstd::prelude::*;

verus! {

/// Settings of the sessionizer.
pub struct SessionizerConfig {
    /// Seconds without input from which on the user counts as idle.
    pub idle_threshold_seconds: u64,
}

impl Default for SessionizerConfig {
    /// Idle after 300 seconds.
    fn default() -> (c: SessionizerConfig)
        ensures
            c.idle_threshold_seconds == 300,
    {
        SessionizerConfig { idle_threshold_seconds: 300 }
    }
}

impl SessionizerConfig {
    /// Whether a sample with this idle time counts as idle: the threshold
    /// itself already does.
    pub fn is_idle(&self, idle_seconds: u64) -> (idle: bool)
        ensures
            idle == is_idle_for(self.idle_threshold_seconds, idle_seconds),
    {
        idle_seconds >= self.idle_threshold_seconds
    }
}

/// What the sessionizer is tracking at the moment.
#[derive(Debug, Clone)]
pub enum SessionState {
    /// Nothing is tracked.
    Inactive,
    /// An application is in use.
    Active { app_id: String, app_name: Option<String>, start_time: Timestamp },
    /// The user is idle.
    Idle { start_time: Timestamp },
}

/// What a [`SessionState`] holds.
pub enum StateView {
    Inactive,
    Active { app_id: Seq<char>, app_name: Option<Seq<char>>, start_time: Timestamp },
    Idle { start_time: Timestamp },
}

impl View for SessionState {
    type V = StateView;

    open spec fn view(&self) -> StateView {
        match *self {
            SessionState::Inactive => StateView::Inactive,
            SessionState::Active { app_id, app_name, start_time } => StateView::Active {
                app_id: app_id@,
                app_name: opt_text(app_name),
                start_time,
            },
            SessionState::Idle { start_time } => StateView::Idle { start_time },
        }
    }
}

/// One observation: the foreground application, if one could be determined,
/// the seconds since the last input, and the moment of the observation.
pub struct SampleView {
    pub app: Option<AppInfoView>,
    pub idle_seconds: u64,
    pub now: Timestamp,
}

/// The name under which idle time is recorded.
pub open spec fn idle_label() -> Seq<char> {
    seq!['I', 'd', 'l', 'e']
}

/// A sample is idle from the threshold on.
pub open spec fn is_idle_for(threshold: u64, idle_seconds: u64) -> bool {
    idle_seconds >= threshold
}

/// The session that records the span from `start` up to `now`. A `now` that
/// lies before `start` gives a session of no length at `start`.
pub open spec fn closed_span(
    app_id: Seq<char>,
    app_name: Option<Seq<char>>,
    start: Timestamp,
    now: Timestamp,
    is_idle: bool,
) -> SessionView {
    SessionView {
        id: None,
        app_id,
        app_name,
        start_time: start,
        end_time: Some(start.later(now)),
        duration_seconds: Some(start.whole_seconds_until(start.later(now)) as i64),
        is_idle,
    }
}

/// The state that a sample opens when nothing carries on.
pub open spec fn opened_by(app: Option<AppInfoView>, idle: bool, now: Timestamp) -> StateView {
    if idle {
        StateView::Idle { start_time: now }
    } else {
        match app {
            Some(info) => StateView::Active {
                app_id: info.process_name,
                app_name: info.app_title,
                start_time: now,
            },
            None => StateView::Inactive,
        }
    }
}

impl StateView {
    /// The start of the open span, if one is open, is a well-formed time.
    pub open spec fn wf(self) -> bool {
        match self {
            StateView::Inactive => true,
            StateView::Active { start_time, .. } => start_time.wf(),
            StateView::Idle { start_time } => start_time.wf(),
        }
    }

    /// Start of the span that is open in this state.
    pub open spec fn open_since(self) -> Option<Timestamp> {
        match self {
            StateView::Inactive => None,
            StateView::Active { start_time, .. } => Some(start_time),
            StateView::Idle { start_time } => Some(start_time),
        }
    }

    /// Whether a sample carries the state on as it is: idleness carries an
    /// idle state on, the same application without idleness an active one, and
    /// no application without idleness an inactive one.
    pub open spec fn carries_on(self, app: Option<AppInfoView>, idle: bool) -> bool {
        match self {
            StateView::Inactive => !idle && app.is_none(),
            StateView::Active { app_id, .. } => !idle && app.is_some() && app.unwrap().process_name
                == app_id,
            StateView::Idle { .. } => idle,
        }
    }

    /// The sessions that leaving this state at `now` completes: none from the
    /// inactive state, else the one that records the open span. Idle time is
    /// recorded under the idle label, whatever was in the foreground.
    pub open spec fn closed_at(self, now: Timestamp) -> Seq<SessionView> {
        match self {
            StateView::Inactive => Seq::empty(),
            StateView::Active { app_id, app_name, start_time } => seq![
                closed_span(app_id, app_name, start_time, now, false),
            ],
            StateView::Idle { start_time } => seq![
                closed_span(idle_label(), Some(idle_label()), start_time, now, true),
            ],
        }
    }

    /// The state after a sample.
    pub open spec fn after(self, threshold: u64, sample: SampleView) -> StateView {
        let idle = is_idle_for(threshold, sample.idle_seconds);
        if self.carries_on(sample.app, idle) {
            self
        } else {
            opened_by(sample.app, idle, sample.now)
        }
    }

    /// The sessions that a sample completes: at most one.
    pub open spec fn emits(self, threshold: u64, sample: SampleView) -> Seq<SessionView> {
        let idle = is_idle_for(threshold, sample.idle_seconds);
        if self.carries_on(sample.app, idle) {
            Seq::empty()
        } else {
            self.closed_at(sample.now)
        }
    }
}

/// What a [`Sessionizer`] holds.
pub struct SessionizerView {
    pub idle_threshold_seconds: u64,
    pub state: StateView,
    pub pending: Seq<SessionView>,
}

impl SessionizerView {
    /// The open span starts at a well-formed time and every pending session
    /// is closed.
    pub open spec fn wf(self) -> bool {
        &&& self.state.wf()
        &&& forall|i: int| 0 <= i < self.pending.len() ==> (#[trigger] self.pending[i]).is_closed()
    }

    /// The sessionizer after a sample: the state moves on and what the sample
    /// completes joins the end of the pending queue.
    pub open spec fn after(self, sample: SampleView) -> SessionizerView {
        SessionizerView {
            idle_threshold_seconds: self.idle_threshold_seconds,
            state: self.state.after(self.idle_threshold_seconds, sample),
            pending: self.pending + self.state.emits(self.idle_threshold_seconds, sample),
        }
    }

    /// Whether a sample completes a session.
    pub open spec fn completes(self, sample: SampleView) -> bool {
        self.state.emits(self.idle_threshold_seconds, sample).len() > 0
    }
}

/// Tracks the current state and queues the sessions that samples complete.
pub struct Sessionizer {
    config: SessionizerConfig,
    state: SessionState,
    pending_sessions: Vec<Session>,
}

impl View for Sessionizer {
    type V = SessionizerView;

    closed spec fn view(&self) -> SessionizerView {
        SessionizerView {
            idle_threshold_seconds: self.config.idle_threshold_seconds,
            state: self.state@,
            pending: session_views(self.pending_sessions@),
        }
    }
}

/// The state that a sample opens when nothing carries on.
fn open_state(app: Option<AppInfo>, idle: bool, now: Timestamp) -> (state: SessionState)
    ensures
        state@ == opened_by(opt_app(app), idle, now),
{
    if idle {
        SessionState::Idle { start_time: now }
    } else {
        match app {
            Some(info) => SessionState::Active {
                app_id: info.process_name,
                app_name: info.app_title,
                start_time: now,
            },
            None => SessionState::Inactive,
        }
    }
}

/// The session that records the span from `start` up to `now`.
fn close_span(
    app_id: String,
    app_name: Option<String>,
    start: Timestamp,
    now: Timestamp,
    is_idle: bool,
) -> (session: Session)
    requires
        start.wf(),
        now.wf(),
    ensures
        session@ == closed_span(app_id@, opt_text(app_name), start, now, is_idle),
        session@.is_closed(),
{
    let end = start.latest(now);
    let duration = start.seconds_until(&end);
    Session {
        id: None,
        app_id,
        app_name,
        start_time: start,
        end_time: Some(end),
        duration_seconds: Some(duration),
        is_idle,
    }
}

impl Sessionizer {
    #[verifier::type_invariant]
    spec fn inv(self) -> bool {
        self@.wf()
    }

    /// A sessionizer that tracks nothing yet and has nothing pending.
    pub fn new(config: SessionizerConfig) -> (s: Sessionizer)
        ensures
            s@ == (SessionizerView {
                idle_threshold_seconds: config.idle_threshold_seconds,
                state: StateView::Inactive,
                pending: Seq::empty(),
            }),
            s@.wf(),
    {
        let s = Sessionizer { config, state: SessionState::Inactive, pending_sessions: Vec::new() };
        assert(s@.pending =~= Seq::empty());
        s
    }

    /// Appends a closed session to the pending queue. The queue is moved out
    /// while it grows, so that the sessionizer is valid at every moment.
    fn enqueue(&mut self, session: Session)
        requires
            session@.is_closed(),
        ensures
            final(self)@ == (SessionizerView {
                pending: old(self)@.pending.push(session@),
                ..old(self)@
            }),
    {
        proof {
            use_type_invariant(&*self);
        }
        let ghost before = self@;
        let mut queue: Vec<Session> = Vec::new();
        std::mem::swap(&mut self.pending_sessions, &mut queue);
        queue.push(session);
        assert(session_views(queue@) =~= before.pending.push(session@));
        let mut rest: Vec<Session> = queue;
        std::mem::swap(&mut self.pending_sessions, &mut rest);
    }

    /// Takes in the sample observed at `now`. Returns whether the sample
    /// completed a session; a completed session waits in the pending queue.
    /// Should the clock have moved backward, so that `now` lies before the
    /// start of the span that the sample ends, the session is recorded with
    /// no length, ending at its start.
    pub fn update_at(&mut self, app: Option<AppInfo>, idle_seconds: u64, now: Timestamp) -> (completed:
        bool)
        requires
            now.wf(),
        ensures
            old(self)@.wf(),
            final(self)@.wf(),
            final(self)@ == old(self)@.after(
                SampleView { app: opt_app(app), idle_seconds, now },
            ),
            completed == old(self)@.completes(SampleView { app: opt_app(app), idle_seconds, now }),
    {
        proof {
            use_type_invariant(&*self);
        }
        let ghost before = self@;
        let idle = self.config.is_idle(idle_seconds);
        let mut prev = SessionState::Inactive;
        std::mem::swap(&mut self.state, &mut prev);
        let completed = match prev {
            SessionState::Inactive => {
                self.state = open_state(app, idle, now);
                false
            },
            SessionState::Active { app_id, app_name, start_time } => {
                let same = !idle && match &app {
                    Some(info) => info.process_name == app_id,
                    None => false,
                };
                if same {
                    self.state = SessionState::Active { app_id, app_name, start_time };
                    false
                } else {
                    let session = close_span(app_id, app_name, start_time, now, false);
                    self.enqueue(session);
                    self.state = open_state(app, idle, now);
                    true
                }
            },
            SessionState::Idle { start_time } => {
                if idle {
                    self.state = SessionState::Idle { start_time };
                    false
                } else {
                    let label = "Idle".to_string();
                    let name = label.clone();
                    proof {
                        reveal_strlit("Idle");
                        assert(label@ =~= idle_label());
                    }
                    let session = close_span(label, Some(name), start_time, now, true);
                    self.enqueue(session);
                    self.state = open_state(app, idle, now);
                    true
                }
            },
        };
        proof {
            let sample = SampleView { app: opt_app(app), idle_seconds, now };
            assert(self@.pending =~= before.pending + before.state.emits(
                before.idle_threshold_seconds,
                sample,
            ));
        }
        completed
    }

    /// Takes in a sample observed now, by the calendar clock. Returns whether
    /// the sample completed a session.
    pub fn update(&mut self, app: Option<AppInfo>, idle_seconds: u64) -> (completed: bool)
        ensures
            old(self)@.wf(),
            final(self)@.wf(),
            exists|now: Timestamp|
                {
                    &&& now.wf()
                    &&& final(self)@ == #[trigger] old(self)@.after(
                        SampleView { app: opt_app(app), idle_seconds, now },
                    )
                    &&& completed == old(self)@.completes(
                        SampleView { app: opt_app(app), idle_seconds, now },
                    )
                },
    {
        let now = utc_now();
        self.update_at(app, idle_seconds, now)
    }

    /// Hands out the pending sessions, oldest first, and leaves the queue
    /// empty.
    pub fn take_pending_sessions(&mut self) -> (sessions: Vec<Session>)
        ensures
            session_views(sessions@) == old(self)@.pending,
            final(self)@ == (SessionizerView { pending: Seq::empty(), ..old(self)@ }),
            old(self)@.wf(),
            final(self)@.wf(),
    {
        proof {
            use_type_invariant(&*self);
        }
        let mut sessions: Vec<Session> = Vec::new();
        std::mem::swap(&mut self.pending_sessions, &mut sessions);
        assert(self@.pending =~= Seq::empty());
        sessions
    }

    /// The state the sessionizer is in.
    pub fn current_state(&self) -> (state: &SessionState)
        ensures
            state@ == self@.state,
    {
        &self.state
    }
}

impl StateView {
    /// The state after a run of samples, taken in order.
    pub open spec fn after_all(self, threshold: u64, samples: Seq<SampleView>) -> StateView
        decreases samples.len(),
    {
        if samples.len() == 0 {
            self
        } else {
            self.after_all(threshold, samples.drop_last()).after(threshold, samples.last())
        }
    }

    /// The sessions that a run of samples completes, oldest first.
    pub open spec fn emits_all(self, threshold: u64, samples: Seq<SampleView>) -> Seq<SessionView>
        decreases samples.len(),
    {
        if samples.len() == 0 {
            Seq::empty()
        } else {
            self.emits_all(threshold, samples.drop_last()) + self.after_all(
                threshold,
                samples.drop_last(),
            ).emits(threshold, samples.last())
        }
    }
}

impl SessionizerView {
    /// The sessionizer after a run of samples, taken in order, with nothing
    /// drained in between.
    pub open spec fn after_all(self, samples: Seq<SampleView>) -> SessionizerView
        decreases samples.len(),
    {
        if samples.len() == 0 {
            self
        } else {
            self.after_all(samples.drop_last()).after(samples.last())
        }
    }
}

/// A run of samples moves the state as the samples move it one by one, keeps
/// the threshold, and adds what the samples complete, oldest first, behind
/// what was pending.
pub proof fn lemma_run_appends(before: SessionizerView, samples: Seq<SampleView>)
    ensures
        before.after_all(samples) == (SessionizerView {
            idle_threshold_seconds: before.idle_threshold_seconds,
            state: before.state.after_all(before.idle_threshold_seconds, samples),
            pending: before.pending + before.state.emits_all(
                before.idle_threshold_seconds,
                samples,
            ),
        }),
    decreases samples.len(),
{
    let threshold = before.idle_threshold_seconds;
    if samples.len() == 0 {
        assert(before.pending + before.state.emits_all(threshold, samples) =~= before.pending);
    } else {
        let earlier = samples.drop_last();
        lemma_run_appends(before, earlier);
        let mid = before.state.after_all(threshold, earlier);
        assert(before.pending + before.state.emits_all(threshold, earlier) + mid.emits(
            threshold,
            samples.last(),
        ) =~= before.pending + before.state.emits_all(threshold, samples));
    }
}

/// The samples were taken at well-formed times, none before an earlier one.
pub open spec fn in_time_order(samples: Seq<SampleView>) -> bool {
    &&& forall|i: int| 0 <= i < samples.len() ==> (#[trigger] samples[i]).now.wf()
    &&& forall|i: int, j: int|
        0 <= i <= j < samples.len() ==> (#[trigger] samples[i]).now.le((#[trigger] samples[j]).now)
}

/// Each session ends before the next one starts, or as it starts.
pub open spec fn in_sequence(sessions: Seq<SessionView>) -> bool {
    forall|i: int, j: int|
        0 <= i < j < sessions.len() ==> (#[trigger] sessions[i]).end_time.unwrap().le(
            (#[trigger] sessions[j]).start_time,
        )
}

/// Every session ends at `limit` or before.
pub open spec fn all_end_by(sessions: Seq<SessionView>, limit: Timestamp) -> bool {
    forall|i: int|
        0 <= i < sessions.len() ==> (#[trigger] sessions[i]).end_time.unwrap().le(limit)
}

/// Nanoseconds that closed sessions cover together.
pub open spec fn total_span_nanos(sessions: Seq<SessionView>) -> int
    decreases sessions.len(),
{
    if sessions.len() == 0 {
        0
    } else {
        total_span_nanos(sessions.drop_last()) + sessions.last().span_nanos()
    }
}

/// Whole seconds that closed sessions record together.
pub open spec fn total_duration_seconds(sessions: Seq<SessionView>) -> int
    decreases sessions.len(),
{
    if sessions.len() == 0 {
        0
    } else {
        total_duration_seconds(sessions.drop_last()) + sessions.last().duration_seconds.unwrap()
    }
}

/// Every sample shows an application or is idle, so that no time passes
/// untracked.
pub open spec fn always_tracked(threshold: u64, samples: Seq<SampleView>) -> bool {
    forall|i: int|
        0 <= i < samples.len() ==> (#[trigger] samples[i]).app.is_some() || is_idle_for(
            threshold,
            samples[i].idle_seconds,
        )
}

/// A run without its last sample is still in time order; it starts with the
/// same sample, and its last sample was taken no later than the one left off.
pub proof fn lemma_earlier_in_time_order(samples: Seq<SampleView>)
    requires
        samples.len() > 0,
        in_time_order(samples),
    ensures
        in_time_order(samples.drop_last()),
        samples.drop_last().len() > 0 ==> samples.drop_last()[0] == samples[0]
            && samples.drop_last().last().now.le(samples.last().now),
{
    let earlier = samples.drop_last();
    assert forall|i: int| 0 <= i < earlier.len() implies (#[trigger] earlier[i]).now.wf() by {
        assert(earlier[i] == samples[i]);
    }
    assert forall|i: int, j: int| 0 <= i <= j < earlier.len() implies (#[trigger] earlier[i]).now.le(
        (#[trigger] earlier[j]).now,
    ) by {
        assert(earlier[i] == samples[i]);
        assert(earlier[j] == samples[j]);
    }
    if earlier.len() > 0 {
        assert(earlier.last() == samples[samples.len() - 2]);
        assert(samples.last() == samples[samples.len() - 1]);
    }
}

/// The idle threshold is inclusive: one second below it a sample is not idle,
/// at the threshold it is.
pub proof fn lemma_idle_threshold_inclusive(threshold: u64)
    requires
        threshold > 0,
    ensures
        !is_idle_for(threshold, (threshold - 1) as u64),
        is_idle_for(threshold, threshold),
{
}

/// A change from one application to another, without idleness, completes
/// exactly one session, that of the application left, and leaves the
/// sessionizer active on the new one from the moment of the sample.
pub proof fn lemma_switch_closes_one(
    threshold: u64,
    app_id: Seq<char>,
    app_name: Option<Seq<char>>,
    start_time: Timestamp,
    sample: SampleView,
)
    requires
        sample.app.is_some(),
        sample.app.unwrap().process_name != app_id,
        !is_idle_for(threshold, sample.idle_seconds),
    ensures
        (StateView::Active { app_id, app_name, start_time }).emits(threshold, sample) == seq![
            closed_span(app_id, app_name, start_time, sample.now, false),
        ],
        (StateView::Active { app_id, app_name, start_time }).after(threshold, sample)
            == (StateView::Active {
            app_id: sample.app.unwrap().process_name,
            app_name: sample.app.unwrap().app_title,
            start_time: sample.now,
        }),
{
}

/// A span closed at a well-formed time is a closed session: its end is not
/// before its start and its duration is the whole seconds between the two.
pub proof fn lemma_closed_span_is_closed(
    app_id: Seq<char>,
    app_name: Option<Seq<char>>,
    start: Timestamp,
    now: Timestamp,
    is_idle: bool,
)
    requires
        start.wf(),
        now.wf(),
    ensures
        closed_span(app_id, app_name, start, now, is_idle).is_closed(),
{
    let end = start.later(now);
    let span = end.total_nanos() - start.total_nanos();
    let unit = crate::time::NANOS_PER_SEC as int;
    assert(0 <= span <= 4 * crate::time::TIMESTAMP_LIMIT * unit) by (nonlinear_arith)
        requires
            span == end.total_nanos() - start.total_nanos(),
            start.le(end),
            start.wf(),
            end.wf(),
            unit == 1_000_000_000,
            end.total_nanos() == end.secs * unit + end.nanos,
            start.total_nanos() == start.secs * unit + start.nanos,
            -crate::time::TIMESTAMP_LIMIT <= start.secs <= crate::time::TIMESTAMP_LIMIT,
            -crate::time::TIMESTAMP_LIMIT <= end.secs <= crate::time::TIMESTAMP_LIMIT,
    ;
    vstd::arithmetic::div_mod::lemma_div_pos_is_pos(span, unit);
    vstd::arithmetic::div_mod::lemma_div_is_ordered(
        span,
        4 * crate::time::TIMESTAMP_LIMIT * unit,
        unit,
    );
    vstd::arithmetic::div_mod::lemma_div_multiples_vanish(4 * crate::time::TIMESTAMP_LIMIT, unit);
}

/// Spans never overlap. Over any run of samples in time order that starts at
/// or after the start of the span open at first, every completed session is
/// closed, each ends before the next starts, and the span still open at the
/// end starts after all of them have ended: at no moment is more than one
/// span open.
pub proof fn lemma_spans_never_overlap(state: StateView, threshold: u64, samples: Seq<SampleView>)
    requires
        state.wf(),
        in_time_order(samples),
        samples.len() > 0 && state.open_since().is_some() ==> state.open_since().unwrap().le(
            samples[0].now,
        ),
    ensures
        state.after_all(threshold, samples).wf(),
        forall|i: int|
            0 <= i < state.emits_all(threshold, samples).len() ==> (#[trigger] state.emits_all(
                threshold,
                samples,
            )[i]).is_closed(),
        in_sequence(state.emits_all(threshold, samples)),
        state.after_all(threshold, samples).open_since().is_some() ==> all_end_by(
            state.emits_all(threshold, samples),
            state.after_all(threshold, samples).open_since().unwrap(),
        ),
        samples.len() > 0 ==> all_end_by(state.emits_all(threshold, samples), samples.last().now),
        samples.len() > 0 && state.after_all(threshold, samples).open_since().is_some()
            ==> state.after_all(threshold, samples).open_since().unwrap().le(samples.last().now),
    decreases samples.len(),
{
    if samples.len() > 0 {
        let earlier = samples.drop_last();
        let sample = samples.last();
        assert(sample == samples[samples.len() - 1]);
        lemma_earlier_in_time_order(samples);
        lemma_spans_never_overlap(state, threshold, earlier);
        let before = state.after_all(threshold, earlier);
        let done = state.emits_all(threshold, earlier);
        let idle = is_idle_for(threshold, sample.idle_seconds);
        let fresh = before.emits(threshold, sample);
        let out = state.emits_all(threshold, samples);
        assert(out == done + fresh);
        // The span open before the sample started at the sample's time or before.
        if before.open_since().is_some() {
            let since = before.open_since().unwrap();
            assert(since.le(sample.now));
            assert(since.later(sample.now) == sample.now);
        }
        if !before.carries_on(sample.app, idle) {
            match before {
                StateView::Inactive => {},
                StateView::Active { app_id, app_name, start_time } => {
                    lemma_closed_span_is_closed(app_id, app_name, start_time, sample.now, false);
                },
                StateView::Idle { start_time } => {
                    lemma_closed_span_is_closed(
                        idle_label(),
                        Some(idle_label()),
                        start_time,
                        sample.now,
                        true,
                    );
                },
            }
        }
        assert forall|i: int| 0 <= i < out.len() implies (#[trigger] out[i]).is_closed() by {
            if i < done.len() {
                assert(out[i] == done[i]);
            } else {
                assert(out[i] == fresh[i - done.len()]);
            }
        }
        assert(all_end_by(out, sample.now)) by {
            assert forall|i: int| 0 <= i < out.len() implies (#[trigger] out[i]).end_time.unwrap().le(
                sample.now,
            ) by {
                if i < done.len() {
                    assert(out[i] == done[i]);
                    if earlier.len() > 0 {
                        assert(done[i].end_time.unwrap().le(earlier.last().now));
                    }
                } else {
                    assert(out[i] == fresh[i - done.len()]);
                }
            }
        }
        assert(in_sequence(out)) by {
            assert forall|i: int, j: int| 0 <= i < j < out.len() implies (
            #[trigger] out[i]).end_time.unwrap().le((#[trigger] out[j]).start_time) by {
                assert(out[i] == done[i]);
                if j < done.len() {
                    assert(out[j] == done[j]);
                } else {
                    assert(out[j] == fresh[j - done.len()]);
                    assert(done[i].end_time.unwrap().le(before.open_since().unwrap()));
                }
            }
        }
        let end = state.after_all(threshold, samples);
        if end.open_since().is_some() {
            assert(all_end_by(out, end.open_since().unwrap())) by {
                assert forall|i: int| 0 <= i < out.len() implies (
                #[trigger] out[i]).end_time.unwrap().le(end.open_since().unwrap()) by {
                    if before.carries_on(sample.app, idle) {
                        assert(out[i] == done[i]);
                    } else {
                        assert(out[i].end_time.unwrap().le(sample.now));
                    }
                }
            }
        }
    }
}

/// The moment from which a run is counted: the start of the span that is
/// open at first, or the first sample when none is.
pub open spec fn run_start(state: StateView, samples: Seq<SampleView>) -> Timestamp
    recommends
        samples.len() > 0,
{
    match state.open_since() {
        Some(since) => since,
        None => samples[0].now,
    }
}

/// Time is accounted for. Over a run of samples in time order in which every
/// sample shows an application or is idle, the completed sessions and the
/// span still open at the last sample cover, to the nanosecond, the time from
/// the start of the run (the start of the span open at first, or the first
/// sample when none was) to the last sample. The recorded whole seconds of
/// each session fall short of its span by less than one second, so the sum
/// of the recorded seconds falls short by less than one second per session.
pub proof fn lemma_time_accounted(state: StateView, threshold: u64, samples: Seq<SampleView>)
    requires
        state.wf(),
        samples.len() > 0,
        in_time_order(samples),
        always_tracked(threshold, samples),
        state.open_since().is_some() ==> state.open_since().unwrap().le(samples[0].now),
    ensures
        state.after_all(threshold, samples).open_since().is_some(),
        total_span_nanos(state.emits_all(threshold, samples)) + (samples.last().now.total_nanos()
            - state.after_all(threshold, samples).open_since().unwrap().total_nanos())
            == samples.last().now.total_nanos() - run_start(state, samples).total_nanos(),
        total_duration_seconds(state.emits_all(threshold, samples)) * 1_000_000_000
            <= total_span_nanos(state.emits_all(threshold, samples)),
        total_span_nanos(state.emits_all(threshold, samples)) <= total_duration_seconds(
            state.emits_all(threshold, samples),
        ) * 1_000_000_000 + state.emits_all(threshold, samples).len() * 999_999_999,
    decreases samples.len(),
{
    let earlier = samples.drop_last();
    let sample = samples.last();
    assert(sample == samples[samples.len() - 1]);
    let before = state.after_all(threshold, earlier);
    let done = state.emits_all(threshold, earlier);
    let idle = is_idle_for(threshold, sample.idle_seconds);
    let fresh = before.emits(threshold, sample);
    let out = state.emits_all(threshold, samples);
    assert(out == done + fresh);
    lemma_earlier_in_time_order(samples);
    if earlier.len() > 0 {
        assert(always_tracked(threshold, earlier)) by {
            assert forall|i: int| 0 <= i < earlier.len() implies (
            #[trigger] earlier[i]).app.is_some() || is_idle_for(
                threshold,
                earlier[i].idle_seconds,
            ) by {
                assert(earlier[i] == samples[i]);
            }
        }
        lemma_time_accounted(state, threshold, earlier);
        assert(run_start(state, earlier) == run_start(state, samples));
    } else {
        assert(before == state);
        assert(done =~= Seq::empty());
        assert(sample == samples[0]);
    }
    lemma_spans_never_overlap(state, threshold, earlier);
    if fresh.len() == 0 {
        assert(out =~= done);
    } else {
        assert(fresh.len() == 1);
        assert(out.drop_last() =~= done);
        assert(out.last() == fresh[0]);
        let since = before.open_since().unwrap();
        assert(since.le(sample.now));
        assert(since.later(sample.now) == sample.now);
        assert(fresh[0].is_closed()) by {
            assert(out[out.len() - 1] == fresh[0]);
            lemma_spans_never_overlap(state, threshold, samples);
        }
        let span = fresh[0].span_nanos();
        let secs = fresh[0].duration_seconds.unwrap() as int;
        vstd::arithmetic::div_mod::lemma_fundamental_div_mod(span, 1_000_000_000);
        vstd::arithmetic::div_mod::lemma_mod_bound(span, 1_000_000_000);
        assert(secs == span / 1_000_000_000);
        assert(secs * 1_000_000_000 <= span <= secs * 1_000_000_000 + 999_999_999);
        assert(total_span_nanos(out) == total_span_nanos(done) + span);
        assert(total_duration_seconds(out) == total_duration_seconds(done) + secs);
    }
}

} // verus!
