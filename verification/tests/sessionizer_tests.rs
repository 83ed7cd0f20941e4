use timewarden::models::{AppInfo, Session};
use timewarden::sessionizer::{SessionState, Sessionizer, SessionizerConfig};
use timewarden::time::Timestamp;

fn app(name: &str) -> Option<AppInfo> {
    Some(AppInfo { process_name: name.to_string(), app_title: None, bundle_id: None })
}

fn titled(name: &str, title: &str) -> Option<AppInfo> {
    Some(AppInfo {
        process_name: name.to_string(),
        app_title: Some(title.to_string()),
        bundle_id: None,
    })
}

fn at(secs: i64) -> Timestamp {
    Timestamp::new(secs, 0).unwrap()
}

fn fresh() -> Sessionizer {
    Sessionizer::new(SessionizerConfig::default())
}

fn is_inactive(s: &Sessionizer) -> bool {
    matches!(s.current_state(), SessionState::Inactive)
}

fn active_on(s: &Sessionizer) -> Option<(String, i64)> {
    match s.current_state() {
        SessionState::Active { app_id, start_time, .. } => Some((app_id.clone(), start_time.secs)),
        _ => None,
    }
}

fn idle_since(s: &Sessionizer) -> Option<i64> {
    match s.current_state() {
        SessionState::Idle { start_time } => Some(start_time.secs),
        _ => None,
    }
}

#[test]
fn default_threshold_is_300() {
    assert_eq!(SessionizerConfig::default().idle_threshold_seconds, 300);
}

#[test]
fn new_sessionizer_is_inactive_and_empty() {
    let mut s = fresh();
    assert!(is_inactive(&s));
    assert!(s.take_pending_sessions().is_empty());
}

#[test]
fn idle_threshold_is_inclusive() {
    let config = SessionizerConfig::default();
    assert!(!config.is_idle(299));
    assert!(config.is_idle(300));
    assert!(config.is_idle(301));

    let mut below = fresh();
    assert!(!below.update_at(app("Editor"), 299, at(10)));
    assert_eq!(active_on(&below), Some(("Editor".to_string(), 10)));

    let mut on = fresh();
    assert!(!on.update_at(app("Editor"), 300, at(10)));
    assert_eq!(idle_since(&on), Some(10));
}

#[test]
fn custom_threshold_boundary() {
    let mut s = Sessionizer::new(SessionizerConfig { idle_threshold_seconds: 5 });
    assert!(!s.update_at(app("A"), 4, at(0)));
    assert!(active_on(&s).is_some());
    assert!(s.update_at(app("A"), 5, at(7)));
    assert_eq!(idle_since(&s), Some(7));
}

#[test]
fn inactive_without_app_stays_inactive() {
    let mut s = fresh();
    assert!(!s.update_at(None, 0, at(5)));
    assert!(is_inactive(&s));
    assert!(s.take_pending_sessions().is_empty());
}

#[test]
fn inactive_to_idle_even_with_app() {
    let mut s = fresh();
    assert!(!s.update_at(app("A"), 900, at(5)));
    assert_eq!(idle_since(&s), Some(5));
    let mut t = fresh();
    assert!(!t.update_at(None, 900, at(6)));
    assert_eq!(idle_since(&t), Some(6));
}

#[test]
fn same_app_continues_without_session() {
    let mut s = fresh();
    assert!(!s.update_at(titled("A", "first"), 0, at(100)));
    assert!(!s.update_at(titled("A", "second"), 10, at(130)));
    assert_eq!(active_on(&s), Some(("A".to_string(), 100)));
    match s.current_state() {
        SessionState::Active { app_name, .. } => assert_eq!(app_name.as_deref(), Some("first")),
        _ => panic!("expected an active state"),
    }
    assert!(s.take_pending_sessions().is_empty());
}

#[test]
fn switching_apps_closes_exactly_one_session() {
    let mut s = fresh();
    assert!(!s.update_at(titled("A", "Window A"), 0, at(1_000)));
    assert!(s.update_at(app("B"), 0, at(1_090)));
    assert_eq!(active_on(&s), Some(("B".to_string(), 1_090)));
    let sessions = s.take_pending_sessions();
    assert_eq!(sessions.len(), 1);
    let closed: &Session = &sessions[0];
    assert_eq!(closed.id, None);
    assert_eq!(closed.app_id, "A");
    assert_eq!(closed.app_name.as_deref(), Some("Window A"));
    assert_eq!(closed.start_time, at(1_000));
    assert_eq!(closed.end_time, Some(at(1_090)));
    assert_eq!(closed.duration_seconds, Some(90));
    assert!(!closed.is_idle);
}

#[test]
fn active_to_inactive_when_app_disappears() {
    let mut s = fresh();
    s.update_at(app("A"), 0, at(10));
    assert!(s.update_at(None, 0, at(25)));
    assert!(is_inactive(&s));
    let sessions = s.take_pending_sessions();
    assert_eq!(sessions.len(), 1);
    assert_eq!(sessions[0].app_id, "A");
    assert_eq!(sessions[0].duration_seconds, Some(15));
}

#[test]
fn active_to_idle_closes_the_app_session() {
    let mut s = fresh();
    s.update_at(app("A"), 0, at(10));
    assert!(s.update_at(app("A"), 300, at(400)));
    assert_eq!(idle_since(&s), Some(400));
    let sessions = s.take_pending_sessions();
    assert_eq!(sessions.len(), 1);
    assert_eq!(sessions[0].app_id, "A");
    assert!(!sessions[0].is_idle);
    assert_eq!(sessions[0].duration_seconds, Some(390));
}

#[test]
fn idle_stays_idle() {
    let mut s = fresh();
    s.update_at(None, 500, at(10));
    assert!(!s.update_at(app("A"), 600, at(110)));
    assert_eq!(idle_since(&s), Some(10));
    assert!(s.take_pending_sessions().is_empty());
}

#[test]
fn idle_to_active_records_idle_under_fixed_name() {
    let mut s = fresh();
    s.update_at(app("A"), 0, at(0));
    s.update_at(app("A"), 300, at(300));
    s.take_pending_sessions();
    assert!(s.update_at(app("B"), 0, at(450)));
    assert_eq!(active_on(&s), Some(("B".to_string(), 450)));
    let sessions = s.take_pending_sessions();
    assert_eq!(sessions.len(), 1);
    assert_eq!(sessions[0].app_id, "Idle");
    assert_eq!(sessions[0].app_name.as_deref(), Some("Idle"));
    assert!(sessions[0].is_idle);
    assert_eq!(sessions[0].start_time, at(300));
    assert_eq!(sessions[0].end_time, Some(at(450)));
    assert_eq!(sessions[0].duration_seconds, Some(150));
}

#[test]
fn idle_to_inactive_without_app() {
    let mut s = fresh();
    s.update_at(None, 300, at(20));
    assert!(s.update_at(None, 0, at(50)));
    assert!(is_inactive(&s));
    let sessions = s.take_pending_sessions();
    assert_eq!(sessions.len(), 1);
    assert!(sessions[0].is_idle);
    assert_eq!(sessions[0].duration_seconds, Some(30));
}

#[test]
fn pending_sessions_are_drained_once() {
    let mut s = fresh();
    s.update_at(app("A"), 0, at(0));
    s.update_at(app("B"), 0, at(5));
    s.update_at(app("C"), 0, at(9));
    let first = s.take_pending_sessions();
    assert_eq!(first.len(), 2);
    assert_eq!(first[0].app_id, "A");
    assert_eq!(first[1].app_id, "B");
    assert!(s.take_pending_sessions().is_empty());
    assert_eq!(active_on(&s), Some(("C".to_string(), 9)));
}

#[test]
fn duration_counts_whole_seconds_only() {
    let mut s = fresh();
    s.update_at(app("A"), 0, Timestamp::new(100, 900_000_000).unwrap());
    s.update_at(app("B"), 0, Timestamp::new(102, 100_000_000).unwrap());
    let sessions = s.take_pending_sessions();
    assert_eq!(sessions[0].duration_seconds, Some(1));
    assert_eq!(sessions[0].end_time, Timestamp::new(102, 100_000_000));
}

#[test]
fn clock_moving_backward_gives_empty_session() {
    let mut s = fresh();
    s.update_at(app("A"), 0, at(500));
    assert!(s.update_at(app("B"), 0, at(400)));
    let sessions = s.take_pending_sessions();
    assert_eq!(sessions[0].start_time, at(500));
    assert_eq!(sessions[0].end_time, Some(at(500)));
    assert_eq!(sessions[0].duration_seconds, Some(0));
    assert_eq!(active_on(&s), Some(("B".to_string(), 400)));
}

#[test]
fn sessions_of_a_run_never_overlap() {
    let mut s = fresh();
    let samples: Vec<(Option<AppInfo>, u64, i64)> = vec![
        (app("A"), 0, 0),
        (app("A"), 1, 10),
        (app("B"), 0, 20),
        (app("B"), 300, 330),
        (None, 400, 430),
        (app("C"), 0, 500),
        (None, 0, 510),
        (app("A"), 2, 600),
        (app("B"), 0, 700),
    ];
    let mut all: Vec<Session> = Vec::new();
    for (a, idle, now) in samples {
        if s.update_at(a, idle, at(now)) {
            let mut taken = s.take_pending_sessions();
            assert_eq!(taken.len(), 1);
            all.append(&mut taken);
        }
    }
    assert_eq!(all.len(), 5);
    for i in 0..all.len() {
        let end = all[i].end_time.unwrap();
        assert!(all[i].start_time.secs <= end.secs);
        assert_eq!(all[i].duration_seconds, Some(end.secs - all[i].start_time.secs));
        if i + 1 < all.len() {
            assert!(end.secs <= all[i + 1].start_time.secs);
        }
    }
    let open = active_on(&s).unwrap();
    assert_eq!(open, ("B".to_string(), 700));
    assert!(all.last().unwrap().end_time.unwrap().secs <= open.1);
}

#[test]
fn durations_add_up_to_the_length_of_the_stream() {
    let mut s = fresh();
    let samples: Vec<(Option<AppInfo>, u64, i64)> = vec![
        (app("A"), 0, 1_000),
        (app("B"), 0, 1_060),
        (app("B"), 300, 1_400),
        (app("C"), 0, 1_500),
        (app("C"), 5, 1_720),
    ];
    let mut total: i64 = 0;
    for (a, idle, now) in samples {
        if s.update_at(a, idle, at(now)) {
            for session in s.take_pending_sessions() {
                total += session.duration_seconds.unwrap();
            }
        }
    }
    let (_, open_since) = active_on(&s).unwrap();
    assert_eq!(total + (1_720 - open_since), 1_720 - 1_000);
    assert_eq!(total, 500);
}

#[test]
fn update_reads_the_calendar_clock() {
    let mut s = fresh();
    assert!(!s.update(app("A"), 0));
    let (name, started) = active_on(&s).unwrap();
    assert_eq!(name, "A");
    assert!(started > 1_600_000_000);
    assert!(s.update(app("B"), 0));
    let sessions = s.take_pending_sessions();
    assert_eq!(sessions.len(), 1);
    assert_eq!(sessions[0].app_id, "A");
    assert_eq!(sessions[0].start_time.secs, started);
    let end = sessions[0].end_time.unwrap();
    assert!(end.secs >= started);
    assert!(end.nanos < 1_000_000_000);
    assert!(sessions[0].duration_seconds.unwrap() >= 0);
    assert!(sessions[0].duration_seconds.unwrap() <= 5);
}
