use doyo_core::error::Error;
use doyo_core::focus::{
    default_cycle, pause_session, plan_start, recent_limit, resume_session, session_from_row,
    stop_session, summarize_focus, task_snapshot, validate_start, CompletedFocusRow, FocusMethod,
    FocusRow, FocusSession, FocusState, LinkedNodeRow, PomodoroPhase, StartFocusInput,
    StopFocusInput,
};
use doyo_core::time::Timestamp;

fn at(secs: i64) -> Timestamp {
    Timestamp { secs, nanos: 0 }
}

fn stopwatch_input() -> StartFocusInput {
    StartFocusInput {
        method: FocusMethod::Stopwatch,
        task_id: None,
        planned_seconds: 0,
        pomodoro_phase: None,
        pomodoro_cycle: 1,
        note: "Stopwatch".to_string(),
    }
}

fn running_session(started: i64) -> FocusSession {
    plan_start(stopwatch_input(), None, false, "s1".to_string(), at(started)).unwrap()
}

fn validation_message(e: Error) -> String {
    match e {
        Error::Validation(m) => m,
        other => panic!("expected a validation error, got {:?}", other),
    }
}

#[test]
fn focus_method_columns_round_trip() {
    for m in [FocusMethod::Pomodoro, FocusMethod::Stopwatch, FocusMethod::Flowtime] {
        assert_eq!(FocusMethod::from_parts(m.as_str(), m.workflow_str()), m);
    }
    assert_eq!(FocusMethod::Flowtime.as_str(), "stopwatch");
    assert_eq!(FocusMethod::Flowtime.workflow_str(), Some("flowtime"));
    assert_eq!(FocusMethod::from_parts("pomodoro", Some("flowtime")), FocusMethod::Flowtime);
    assert_eq!(FocusMethod::from_parts("anything", None), FocusMethod::Stopwatch);
}

#[test]
fn focus_state_and_phase_names() {
    for s in [FocusState::Running, FocusState::Paused, FocusState::Completed, FocusState::Stopped] {
        assert_eq!(FocusState::from_str(s.as_str()), s);
    }
    assert_eq!(FocusState::from_str("unknown"), FocusState::Stopped);
    assert_eq!(PomodoroPhase::from_str("short_break"), Some(PomodoroPhase::ShortBreak));
    assert_eq!(PomodoroPhase::LongBreak.as_str(), "long_break");
    assert_eq!(PomodoroPhase::from_str("lunch"), None);
    assert_eq!(default_cycle(), 1);
}

#[test]
fn focus_start_settings_are_checked() {
    let mut p = stopwatch_input();
    p.method = FocusMethod::Pomodoro;
    p.pomodoro_phase = Some(PomodoroPhase::Focus);
    p.planned_seconds = 0;
    assert_eq!(
        validation_message(validate_start(&p).unwrap_err()),
        "Pomodoro planned duration must be between 1 second and 24 hours"
    );
    p.planned_seconds = 86_401;
    assert!(validate_start(&p).is_err());
    p.planned_seconds = 86_400;
    assert!(validate_start(&p).is_ok());
    p.pomodoro_phase = None;
    assert_eq!(validation_message(validate_start(&p).unwrap_err()), "Pomodoro phase is required");
    let mut s = stopwatch_input();
    s.planned_seconds = -1;
    assert_eq!(
        validation_message(validate_start(&s).unwrap_err()),
        "Stopwatch duration cannot be negative"
    );
    s.method = FocusMethod::Flowtime;
    assert!(validate_start(&s).is_err());
}

#[test]
fn focus_task_links_must_be_active_tasks() {
    assert_eq!(task_snapshot(None, None).unwrap(), (None, String::new()));
    assert_eq!(
        validation_message(task_snapshot(Some("t".into()), None).unwrap_err()),
        "Linked focus task does not exist"
    );
    let note = LinkedNodeRow { node_type: "Note".into(), title: "N".into(), deleted_at: None };
    assert_eq!(
        validation_message(task_snapshot(Some("t".into()), Some(note)).unwrap_err()),
        "Focus session can only link to an active task"
    );
    let trashed = LinkedNodeRow {
        node_type: "Task".into(),
        title: "T".into(),
        deleted_at: Some("2026-01-01T00:00:00Z".into()),
    };
    assert!(task_snapshot(Some("t".into()), Some(trashed)).is_err());
    let task = LinkedNodeRow { node_type: "Task".into(), title: "Write draft".into(), deleted_at: None };
    assert_eq!(
        task_snapshot(Some("t".into()), Some(task)).unwrap(),
        (Some("t".to_string()), "Write draft".to_string())
    );
}

#[test]
fn focus_second_timer_is_refused_and_cycle_is_at_least_one() {
    let mut input = stopwatch_input();
    input.method = FocusMethod::Pomodoro;
    input.planned_seconds = 1;
    input.pomodoro_phase = Some(PomodoroPhase::ShortBreak);
    input.pomodoro_cycle = 0;
    let refused = plan_start(input.clone(), None, true, "id".into(), at(0));
    assert_eq!(validation_message(refused.unwrap_err()), "A focus timer is already active");
    let started = plan_start(input, None, false, "id".into(), at(5)).unwrap();
    assert_eq!(started.state, FocusState::Running);
    assert_eq!(started.pomodoro_cycle, 1);
    assert_eq!(started.last_started_at, Some(at(5)));
    assert_eq!(started.accumulated_seconds, 0);
}

#[test]
fn focus_pause_resume_stop_counts_running_time_only() {
    let s = running_session(1_000);
    let paused = pause_session(s, at(1_030)).unwrap();
    assert_eq!(paused.state, FocusState::Paused);
    assert_eq!(paused.accumulated_seconds, 30);
    assert_eq!(paused.interruptions, 1);
    assert_eq!(paused.last_started_at, None);
    let again = pause_session(paused.clone(), at(1_040));
    assert_eq!(
        validation_message(again.unwrap_err()),
        "Only a running focus timer can be paused"
    );
    let resumed = resume_session(paused, at(1_100)).unwrap();
    assert_eq!(resumed.state, FocusState::Running);
    let twice = resume_session(resumed.clone(), at(1_101));
    assert_eq!(
        validation_message(twice.unwrap_err()),
        "Only a paused focus timer can be resumed"
    );
    let stopped = stop_session(
        resumed,
        StopFocusInput { completed: true, note: Some("Done".into()) },
        at(1_130),
    )
    .unwrap();
    assert_eq!(stopped.state, FocusState::Completed);
    assert_eq!(stopped.duration_seconds, 60);
    assert_eq!(stopped.note, "Done");
    assert_eq!(stopped.ended_at, Some(at(1_130)));
    let after = stop_session(stopped, StopFocusInput::default(), at(1_200));
    assert_eq!(
        validation_message(after.unwrap_err()),
        "Only an active focus timer can be stopped"
    );
}

#[test]
fn focus_pause_then_stop_matches_stop_at_pause() {
    let direct = stop_session(running_session(0), StopFocusInput::default(), at(45)).unwrap();
    let paused = pause_session(running_session(0), at(45)).unwrap();
    let later = stop_session(paused, StopFocusInput::default(), at(500)).unwrap();
    assert_eq!(direct.duration_seconds, 45);
    assert_eq!(later.duration_seconds, 45);
    assert_eq!(later.state, FocusState::Stopped);
    assert_eq!(later.note, "Stopwatch");
}

#[test]
fn focus_totals_split_methods() {
    let row = |method: &str, workflow: Option<&str>, secs: i64, started: &str| CompletedFocusRow {
        method: method.into(),
        focus_workflow: workflow.map(|w| w.to_string()),
        duration_seconds: secs,
        started_at: started.into(),
    };
    let rows = vec![
        row("pomodoro", None, 1500, "2026-07-29T08:00:00+00:00"),
        row("stopwatch", None, 600, "2026-07-28T08:00:00+00:00"),
        row("stopwatch", Some("flowtime"), 300, "2026-07-29T09:00:00+00:00"),
    ];
    let s = summarize_focus(&rows, "2026-07-29");
    assert_eq!(s.today_seconds, 1800);
    assert_eq!(s.total_seconds, 2400);
    assert_eq!(s.pomodoro_count, 1);
    assert_eq!(s.stopwatch_seconds, 600);
    assert_eq!(s.flowtime_seconds, 300);
}

#[test]
fn focus_recent_limit_is_clamped() {
    assert_eq!(recent_limit(0), 1);
    assert_eq!(recent_limit(-5), 1);
    assert_eq!(recent_limit(20), 20);
    assert_eq!(recent_limit(10_000), 500);
}

#[test]
fn focus_row_shows_running_time() {
    let row = FocusRow {
        id: "f".into(),
        task_id: None,
        task_title: String::new(),
        method: "stopwatch".into(),
        focus_workflow: Some("flowtime".into()),
        state: "running".into(),
        pomodoro_phase: Some("nap".into()),
        pomodoro_cycle: 1,
        planned_seconds: 0,
        accumulated_seconds: 100,
        duration_seconds: 100,
        interruptions: 2,
        note: String::new(),
        started_at: "2026-07-29T08:00:00Z".into(),
        last_started_at: Some("2026-07-29T08:10:00Z".into()),
        ended_at: None,
        created_at: "not a date".into(),
        updated_at: "2026-07-29T08:10:00Z".into(),
    };
    let now = Timestamp { secs: 1_785_312_600 + 25, nanos: 0 };
    let s = session_from_row(row, now);
    assert_eq!(s.method, FocusMethod::Flowtime);
    assert_eq!(s.state, FocusState::Running);
    assert_eq!(s.pomodoro_phase, None);
    assert_eq!(s.elapsed_seconds, 125);
    assert_eq!(s.created_at, Timestamp { secs: 0, nanos: 0 });
    assert_eq!(s.started_at.secs, 1_785_312_000);
}
