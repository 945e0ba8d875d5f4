use vstd::prelude::*;
use crate::error::{is_validation, Error};
use crate::node::model::{parse_node_type, NodeType};
use crate::text::str_eq;
use crate::time::{chrono_instant, elapsed_seconds_spec, elapsed_since, ts_in_range, Timestamp};

verus! {

/// How a focus timer counts.
#[derive(Debug, Clone, Copy, PartialEq, Eq, Structural)]
pub enum FocusMethod {
    Pomodoro,
    Stopwatch,
    Flowtime,
}

/// The `method` column a timer is stored under: a flowtime timer is stored
/// as a stopwatch and told apart by its workflow column.
pub open spec fn method_column(m: FocusMethod) -> Seq<char> {
    match m {
        FocusMethod::Pomodoro => "pomodoro"@,
        FocusMethod::Stopwatch => "stopwatch"@,
        FocusMethod::Flowtime => "stopwatch"@,
    }
}

/// The `focus_workflow` column a timer is stored under.
pub open spec fn workflow_column(m: FocusMethod) -> Option<Seq<char>> {
    match m {
        FocusMethod::Flowtime => Some("flowtime"@),
        _ => None,
    }
}

/// The method read back from its two columns: the flowtime workflow wins,
/// then `pomodoro`; anything else is a stopwatch.
pub open spec fn method_from_columns(value: Seq<char>, workflow: Option<Seq<char>>) -> FocusMethod {
    if workflow == Some("flowtime"@) {
        FocusMethod::Flowtime
    } else if value == "pomodoro"@ {
        FocusMethod::Pomodoro
    } else {
        FocusMethod::Stopwatch
    }
}

/// The view of an optional string slice.
pub open spec fn opt_str_view(o: Option<&str>) -> Option<Seq<char>> {
    match o {
        Some(s) => Some(s@),
        None => None,
    }
}

impl FocusMethod {
    /// The `method` column this timer is stored under.
    pub fn as_str(&self) -> (r: &'static str)
        ensures
            r@ == method_column(*self),
    {
        match self {
            FocusMethod::Pomodoro => "pomodoro",
            FocusMethod::Stopwatch => "stopwatch",
            FocusMethod::Flowtime => "stopwatch",
        }
    }

    /// The `focus_workflow` column this timer is stored under.
    pub fn workflow_str(&self) -> (r: Option<&'static str>)
        ensures
            opt_str_view(r) == workflow_column(*self),
    {
        match self {
            FocusMethod::Flowtime => Some("flowtime"),
            _ => None,
        }
    }

    /// The method stored under the columns `value` and `workflow`.
    pub fn from_parts(value: &str, workflow: Option<&str>) -> (r: FocusMethod)
        ensures
            r == method_from_columns(value@, opt_str_view(workflow)),
    {
        if let Some(w) = workflow {
            if str_eq(w, "flowtime") {
                return FocusMethod::Flowtime;
            }
        }
        if str_eq(value, "pomodoro") {
            FocusMethod::Pomodoro
        } else {
            FocusMethod::Stopwatch
        }
    }
}

/// Every method is read back as the method that was stored.
pub proof fn law_focus_method_round_trip(m: FocusMethod)
    ensures
        method_from_columns(method_column(m), workflow_column(m)) == m,
{
    reveal_strlit("pomodoro");
    reveal_strlit("stopwatch");
    reveal_strlit("flowtime");
    assert("pomodoro"@.len() == 8);
    assert("stopwatch"@.len() == 9);
}

/// Where a focus timer stands.
#[derive(Debug, Clone, Copy, PartialEq, Eq, Structural)]
pub enum FocusState {
    Running,
    Paused,
    Completed,
    Stopped,
}

/// The `state` column a state is stored under.
pub open spec fn state_column(s: FocusState) -> Seq<char> {
    match s {
        FocusState::Running => "running"@,
        FocusState::Paused => "paused"@,
        FocusState::Completed => "completed"@,
        FocusState::Stopped => "stopped"@,
    }
}

/// The state read back from its column; an unknown name reads as stopped.
pub open spec fn state_from_column(value: Seq<char>) -> FocusState {
    if value == "running"@ {
        FocusState::Running
    } else if value == "paused"@ {
        FocusState::Paused
    } else if value == "completed"@ {
        FocusState::Completed
    } else {
        FocusState::Stopped
    }
}

impl FocusState {
    /// The state stored under `value`; an unknown name reads as stopped.
    pub fn from_str(value: &str) -> (r: FocusState)
        ensures
            r == state_from_column(value@),
    {
        if str_eq(value, "running") {
            FocusState::Running
        } else if str_eq(value, "paused") {
            FocusState::Paused
        } else if str_eq(value, "completed") {
            FocusState::Completed
        } else {
            FocusState::Stopped
        }
    }

    /// The `state` column this state is stored under.
    pub fn as_str(&self) -> (r: &'static str)
        ensures
            r@ == state_column(*self),
    {
        match self {
            FocusState::Running => "running",
            FocusState::Paused => "paused",
            FocusState::Completed => "completed",
            FocusState::Stopped => "stopped",
        }
    }

    /// Whether the timer is still going (running or paused).
    pub fn is_active(&self) -> (r: bool)
        ensures
            r == (*self == FocusState::Running || *self == FocusState::Paused),
    {
        match self {
            FocusState::Running => true,
            FocusState::Paused => true,
            _ => false,
        }
    }
}

/// Every state is read back as the state that was stored.
pub proof fn law_focus_state_round_trip(s: FocusState)
    ensures
        state_from_column(state_column(s)) == s,
{
    reveal_strlit("running");
    reveal_strlit("paused");
    reveal_strlit("completed");
    reveal_strlit("stopped");
    assert("running"@.len() == 7);
    assert("paused"@.len() == 6);
    assert("completed"@.len() == 9);
    assert("stopped"@.len() == 7);
    assert("running"@[0] != "stopped"@[0]);
}

/// The part of a pomodoro cycle a timer measures.
#[derive(Debug, Clone, Copy, PartialEq, Eq, Structural)]
pub enum PomodoroPhase {
    Focus,
    ShortBreak,
    LongBreak,
}

/// The name a phase is stored under.
pub open spec fn phase_column(p: PomodoroPhase) -> Seq<char> {
    match p {
        PomodoroPhase::Focus => "focus"@,
        PomodoroPhase::ShortBreak => "short_break"@,
        PomodoroPhase::LongBreak => "long_break"@,
    }
}

/// The phase stored under `value`, if any.
pub open spec fn phase_from_column(value: Seq<char>) -> Option<PomodoroPhase> {
    if value == "focus"@ {
        Some(PomodoroPhase::Focus)
    } else if value == "short_break"@ {
        Some(PomodoroPhase::ShortBreak)
    } else if value == "long_break"@ {
        Some(PomodoroPhase::LongBreak)
    } else {
        None
    }
}

impl PomodoroPhase {
    /// The name this phase is stored under.
    pub fn as_str(&self) -> (r: &'static str)
        ensures
            r@ == phase_column(*self),
    {
        match self {
            PomodoroPhase::Focus => "focus",
            PomodoroPhase::ShortBreak => "short_break",
            PomodoroPhase::LongBreak => "long_break",
        }
    }

    /// The phase stored under `value`, or `None` for any other name.
    pub fn from_str(value: &str) -> (r: Option<PomodoroPhase>)
        ensures
            r == phase_from_column(value@),
    {
        if str_eq(value, "focus") {
            Some(PomodoroPhase::Focus)
        } else if str_eq(value, "short_break") {
            Some(PomodoroPhase::ShortBreak)
        } else if str_eq(value, "long_break") {
            Some(PomodoroPhase::LongBreak)
        } else {
            None
        }
    }
}

/// Every phase is read back as the phase that was stored, and only a stored
/// name is read as a phase.
pub proof fn law_pomodoro_phase_round_trip(p: PomodoroPhase, s: Seq<char>)
    ensures
        phase_from_column(phase_column(p)) == Some(p),
        phase_from_column(s) == Some(p) ==> s == phase_column(p),
{
    reveal_strlit("focus");
    reveal_strlit("short_break");
    reveal_strlit("long_break");
    assert("focus"@.len() == 5);
    assert("short_break"@.len() == 11);
    assert("long_break"@.len() == 10);
}

/// The pomodoro cycle a new timer counts when none is given.
pub fn default_cycle() -> (r: i32)
    ensures
        r == 1,
{
    1
}

} // verus!

verus! {

/// A focus timer as stored, with the running time it shows.
#[derive(Debug, Clone)]
pub struct FocusSession {
    pub id: String,
    pub task_id: Option<String>,
    pub task_title: String,
    pub method: FocusMethod,
    pub state: FocusState,
    pub pomodoro_phase: Option<PomodoroPhase>,
    pub pomodoro_cycle: i32,
    pub planned_seconds: i64,
    pub accumulated_seconds: i64,
    pub elapsed_seconds: i64,
    pub duration_seconds: i64,
    pub interruptions: i32,
    pub note: String,
    pub started_at: Timestamp,
    pub last_started_at: Option<Timestamp>,
    pub ended_at: Option<Timestamp>,
    pub created_at: Timestamp,
    pub updated_at: Timestamp,
}

/// What a new timer is started with.
#[derive(Debug, Clone)]
pub struct StartFocusInput {
    pub method: FocusMethod,
    pub task_id: Option<String>,
    pub planned_seconds: i64,
    pub pomodoro_phase: Option<PomodoroPhase>,
    pub pomodoro_cycle: i32,
    pub note: String,
}

/// How a timer is stopped.
#[derive(Debug, Clone)]
pub struct StopFocusInput {
    pub completed: bool,
    pub note: Option<String>,
}

impl Default for StopFocusInput {
    fn default() -> (r: StopFocusInput)
        ensures
            !r.completed,
            r.note is None,
    {
        StopFocusInput { completed: false, note: None }
    }
}

/// Totals over the completed timers.
#[derive(Debug, Clone, Copy, PartialEq, Eq, Structural)]
pub struct FocusSummary {
    pub today_seconds: i64,
    pub total_seconds: i64,
    pub pomodoro_count: i64,
    pub stopwatch_seconds: i64,
    pub flowtime_seconds: i64,
}

impl Default for FocusSummary {
    fn default() -> (r: FocusSummary)
        ensures
            r == (FocusSummary {
                today_seconds: 0,
                total_seconds: 0,
                pomodoro_count: 0,
                stopwatch_seconds: 0,
                flowtime_seconds: 0,
            }),
    {
        FocusSummary {
            today_seconds: 0,
            total_seconds: 0,
            pomodoro_count: 0,
            stopwatch_seconds: 0,
            flowtime_seconds: 0,
        }
    }
}

/// The longest planned pomodoro: one day.
pub const MAX_PLANNED_SECONDS: i64 = 86400;

/// Why a timer with these settings cannot start, if it cannot.
pub open spec fn start_settings_error(input: StartFocusInput) -> Option<Seq<char>> {
    if input.method == FocusMethod::Pomodoro && (input.planned_seconds < 1
        || input.planned_seconds > MAX_PLANNED_SECONDS) {
        Some("Pomodoro planned duration must be between 1 second and 24 hours"@)
    } else if input.method == FocusMethod::Pomodoro && input.pomodoro_phase is None {
        Some("Pomodoro phase is required"@)
    } else if input.method != FocusMethod::Pomodoro && input.planned_seconds < 0 {
        Some("Stopwatch duration cannot be negative"@)
    } else {
        None
    }
}

/// Checks the settings of a timer about to start: a pomodoro plans between one
/// second and a day and names its phase; a stopwatch or flowtime timer plans
/// no negative time.
pub fn validate_start(input: &StartFocusInput) -> (r: Result<(), Error>)
    ensures
        match start_settings_error(*input) {
            None => r is Ok,
            Some(msg) => r matches Err(e) && is_validation(e, msg),
        },
{
    if input.method == FocusMethod::Pomodoro {
        if input.planned_seconds < 1 || input.planned_seconds > MAX_PLANNED_SECONDS {
            return Err(
                crate::error::validation_error(
                    "Pomodoro planned duration must be between 1 second and 24 hours",
                ),
            );
        }
        if input.pomodoro_phase.is_none() {
            return Err(crate::error::validation_error("Pomodoro phase is required"));
        }
    }
    if (input.method == FocusMethod::Stopwatch || input.method == FocusMethod::Flowtime)
        && input.planned_seconds < 0 {
        return Err(crate::error::validation_error("Stopwatch duration cannot be negative"));
    }
    Ok(())
}

/// The stored row of the node a timer is to be linked to.
#[derive(Debug, Clone)]
pub struct LinkedNodeRow {
    pub node_type: String,
    pub title: String,
    pub deleted_at: Option<String>,
}

/// The task a timer links to and the title it keeps of it: nothing for no
/// task; an error where the node is missing, is no task or is in the trash.
pub open spec fn task_snapshot_spec(task_id: Option<String>, row: Option<LinkedNodeRow>) -> Result<
    (Option<String>, Seq<char>),
    Seq<char>,
> {
    match task_id {
        None => Ok((None, Seq::empty())),
        Some(id) => match row {
            None => Err("Linked focus task does not exist"@),
            Some(r) => if parse_node_type(r.node_type@) != Some(NodeType::Task) || r.deleted_at is Some {
                Err("Focus session can only link to an active task"@)
            } else {
                Ok((Some(id), r.title@))
            },
        },
    }
}

/// The task a timer links to and the title it keeps of it, from the stored
/// row of `task_id` (`None` where no row has that id).
pub fn task_snapshot(task_id: Option<String>, row: Option<LinkedNodeRow>) -> (r: Result<
    (Option<String>, String),
    Error,
>)
    ensures
        match task_snapshot_spec(task_id, row) {
            Ok((id, title)) => r matches Ok((rid, rtitle)) && rid == id && rtitle@ == title,
            Err(msg) => r matches Err(e) && is_validation(e, msg),
        },
{
    match task_id {
        None => Ok((None, String::new())),
        Some(id) => match row {
            None => Err(crate::error::validation_error("Linked focus task does not exist")),
            Some(r) => {
                let t = NodeType::parse(r.node_type.as_str());
                let is_task = match t {
                    Some(NodeType::Task) => true,
                    _ => false,
                };
                if !is_task || r.deleted_at.is_some() {
                    Err(
                        crate::error::validation_error(
                            "Focus session can only link to an active task",
                        ),
                    )
                } else {
                    Ok((Some(id), r.title))
                }
            },
        },
    }
}

/// The timer that starting `input` stores: running since `now`, nothing
/// counted yet, the cycle at least one.
pub open spec fn started_session(
    input: StartFocusInput,
    task_id: Option<String>,
    task_title: String,
    id: String,
    now: Timestamp,
) -> FocusSession {
    FocusSession {
        id,
        task_id,
        task_title,
        method: input.method,
        state: FocusState::Running,
        pomodoro_phase: input.pomodoro_phase,
        pomodoro_cycle: if input.pomodoro_cycle < 1 {
            1
        } else {
            input.pomodoro_cycle
        },
        planned_seconds: input.planned_seconds,
        accumulated_seconds: 0,
        elapsed_seconds: 0,
        duration_seconds: 0,
        interruptions: 0,
        note: input.note,
        started_at: now,
        last_started_at: Some(now),
        ended_at: None,
        created_at: now,
        updated_at: now,
    }
}

/// Starts a timer: the settings are checked, then the linked task, then that
/// no other timer is running or paused (`active_exists`); the timer is stored
/// as `started_session`.
pub fn plan_start(
    input: StartFocusInput,
    task_row: Option<LinkedNodeRow>,
    active_exists: bool,
    id: String,
    now: Timestamp,
) -> (r: Result<FocusSession, Error>)
    ensures
        match start_settings_error(input) {
            Some(msg) => r matches Err(e) && is_validation(e, msg),
            None => match task_snapshot_spec(input.task_id, task_row) {
                Err(msg) => r matches Err(e) && is_validation(e, msg),
                Ok((tid, title)) => if active_exists {
                    r matches Err(e) && is_validation(e, "A focus timer is already active"@)
                } else {
                    r matches Ok(s) && s.task_title@ == title && s == started_session(
                        input,
                        tid,
                        s.task_title,
                        id,
                        now,
                    )
                },
            },
        },
{
    validate_start(&input)?;
    let snapshot = task_snapshot(input.task_id.clone(), task_row);
    let (task_id, task_title) = match snapshot {
        Ok(v) => v,
        Err(e) => return Err(e),
    };
    if active_exists {
        return Err(crate::error::validation_error("A focus timer is already active"));
    }
    let cycle = if input.pomodoro_cycle < 1 {
        1
    } else {
        input.pomodoro_cycle
    };
    Ok(
        FocusSession {
            id,
            task_id,
            task_title,
            method: input.method,
            state: FocusState::Running,
            pomodoro_phase: input.pomodoro_phase,
            pomodoro_cycle: cycle,
            planned_seconds: input.planned_seconds,
            accumulated_seconds: 0,
            elapsed_seconds: 0,
            duration_seconds: 0,
            interruptions: 0,
            note: input.note,
            started_at: now,
            last_started_at: Some(now),
            ended_at: None,
            created_at: now,
            updated_at: now,
        },
    )
}

/// Starts a timer now, under a fresh id: `plan_start` with the clock and a new
/// UUID.
pub fn start_session(
    input: StartFocusInput,
    task_row: Option<LinkedNodeRow>,
    active_exists: bool,
) -> (r: Result<FocusSession, Error>)
    ensures
        match start_settings_error(input) {
            Some(msg) => r matches Err(e) && is_validation(e, msg),
            None => match task_snapshot_spec(input.task_id, task_row) {
                Err(msg) => r matches Err(e) && is_validation(e, msg),
                Ok((tid, title)) => if active_exists {
                    r matches Err(e) && is_validation(e, "A focus timer is already active"@)
                } else {
                    r matches Ok(s) && s.task_title@ == title && crate::ids::is_uuid_text(s.id@)
                        && chrono_instant(s.started_at) && s == started_session(
                        input,
                        tid,
                        s.task_title,
                        s.id,
                        s.started_at,
                    )
                },
            },
        },
{
    let id = crate::ids::new_id();
    let now = crate::time::now();
    plan_start(input, task_row, active_exists, id, now)
}

} // verus!

verus! {

/// Whole seconds a timer has run since it was last started, at `now`.
pub open spec fn run_seconds(last_started_at: Option<Timestamp>, now: Timestamp) -> int {
    match last_started_at {
        Some(s) => elapsed_seconds_spec(s, now),
        None => 0,
    }
}

/// The instants of a stored timer lie in the range its arithmetic is proved on.
pub open spec fn session_times_in_range(s: FocusSession) -> bool {
    s.last_started_at matches Some(t) ==> ts_in_range(t)
}

/// The timer after pausing it at `now`: the time run since it was last
/// started is added to what it had counted, one more interruption is
/// counted, and it no longer runs.
pub open spec fn paused_session(s: FocusSession, now: Timestamp) -> FocusSession {
    let counted = s.accumulated_seconds + run_seconds(s.last_started_at, now);
    FocusSession {
        state: FocusState::Paused,
        accumulated_seconds: counted as i64,
        duration_seconds: counted as i64,
        elapsed_seconds: counted as i64,
        interruptions: (s.interruptions + 1) as i32,
        last_started_at: None,
        updated_at: now,
        ..s
    }
}

/// Pausing at `now` cannot overflow the counters.
pub open spec fn pause_fits(s: FocusSession, now: Timestamp) -> bool {
    &&& s.accumulated_seconds + run_seconds(s.last_started_at, now) <= i64::MAX
    &&& s.interruptions < i32::MAX
}

/// Pauses a running timer at `now`; any other timer is refused.
pub fn pause_session(current: FocusSession, now: Timestamp) -> (r: Result<FocusSession, Error>)
    requires
        ts_in_range(now),
        session_times_in_range(current),
        current.state == FocusState::Running ==> pause_fits(current, now),
    ensures
        current.state == FocusState::Running ==> r == Ok::<FocusSession, Error>(
            paused_session(current, now),
        ),
        current.state != FocusState::Running ==> (r matches Err(e) && is_validation(
            e,
            "Only a running focus timer can be paused"@,
        )),
{
    if current.state != FocusState::Running {
        return Err(crate::error::validation_error("Only a running focus timer can be paused"));
    }
    let elapsed = elapsed_since(current.last_started_at, now);
    let counted = current.accumulated_seconds + elapsed;
    Ok(
        FocusSession {
            state: FocusState::Paused,
            accumulated_seconds: counted,
            duration_seconds: counted,
            elapsed_seconds: counted,
            interruptions: current.interruptions + 1,
            last_started_at: None,
            updated_at: now,
            ..current
        },
    )
}

/// The timer after resuming it at `now`: it runs again from `now`.
pub open spec fn resumed_session(s: FocusSession, now: Timestamp) -> FocusSession {
    FocusSession {
        state: FocusState::Running,
        elapsed_seconds: s.accumulated_seconds,
        last_started_at: Some(now),
        updated_at: now,
        ..s
    }
}

/// Resumes a paused timer at `now`; any other timer is refused.
pub fn resume_session(current: FocusSession, now: Timestamp) -> (r: Result<FocusSession, Error>)
    ensures
        current.state == FocusState::Paused ==> r == Ok::<FocusSession, Error>(
            resumed_session(current, now),
        ),
        current.state != FocusState::Paused ==> (r matches Err(e) && is_validation(
            e,
            "Only a paused focus timer can be resumed"@,
        )),
{
    if current.state != FocusState::Paused {
        return Err(crate::error::validation_error("Only a paused focus timer can be resumed"));
    }
    let counted = current.accumulated_seconds;
    Ok(
        FocusSession {
            state: FocusState::Running,
            elapsed_seconds: counted,
            last_started_at: Some(now),
            updated_at: now,
            ..current
        },
    )
}

/// The seconds a timer has counted when it is stopped at `now`: what it had
/// counted, plus the time run since it was last started if it runs, and never
/// less than zero.
pub open spec fn stopped_duration(s: FocusSession, now: Timestamp) -> int {
    let run = if s.state == FocusState::Running {
        run_seconds(s.last_started_at, now)
    } else {
        0
    };
    let total = s.accumulated_seconds + run;
    if total < 0 {
        0
    } else {
        total
    }
}

/// The timer after stopping it at `now`: completed or stopped, its count
/// final, its note replaced where a new one is given.
pub open spec fn stopped_session(s: FocusSession, input: StopFocusInput, now: Timestamp) -> FocusSession {
    let d = stopped_duration(s, now) as i64;
    FocusSession {
        state: if input.completed {
            FocusState::Completed
        } else {
            FocusState::Stopped
        },
        accumulated_seconds: d,
        duration_seconds: d,
        elapsed_seconds: d,
        note: match input.note {
            Some(n) => n,
            None => s.note,
        },
        last_started_at: None,
        ended_at: Some(now),
        updated_at: now,
        ..s
    }
}

/// Stopping at `now` cannot overflow the count.
pub open spec fn stop_fits(s: FocusSession, now: Timestamp) -> bool {
    s.state == FocusState::Running ==> s.accumulated_seconds + run_seconds(s.last_started_at, now)
        <= i64::MAX
}

/// Stops a running or paused timer at `now`; any other timer is refused.
pub fn stop_session(current: FocusSession, input: StopFocusInput, now: Timestamp) -> (r: Result<
    FocusSession,
    Error,
>)
    requires
        ts_in_range(now),
        session_times_in_range(current),
        stop_fits(current, now),
    ensures
        current.state.is_active_spec() ==> r == Ok::<FocusSession, Error>(
            stopped_session(current, input, now),
        ),
        !current.state.is_active_spec() ==> (r matches Err(e) && is_validation(
            e,
            "Only an active focus timer can be stopped"@,
        )),
{
    if current.state != FocusState::Running && current.state != FocusState::Paused {
        return Err(crate::error::validation_error("Only an active focus timer can be stopped"));
    }
    let elapsed = if current.state == FocusState::Running {
        elapsed_since(current.last_started_at, now)
    } else {
        0
    };
    let total = current.accumulated_seconds + elapsed;
    let duration = if total < 0 {
        0
    } else {
        total
    };
    let state = if input.completed {
        FocusState::Completed
    } else {
        FocusState::Stopped
    };
    let note = match input.note {
        Some(n) => n,
        None => current.note,
    };
    Ok(
        FocusSession {
            state,
            accumulated_seconds: duration,
            duration_seconds: duration,
            elapsed_seconds: duration,
            note,
            last_started_at: None,
            ended_at: Some(now),
            updated_at: now,
            ..current
        },
    )
}

impl FocusState {
    /// The timer is still going (running or paused).
    pub open spec fn is_active_spec(self) -> bool {
        self == FocusState::Running || self == FocusState::Paused
    }
}

/// Pausing, resuming and stopping change the timer's state as their names
/// say and keep what identifies it: pausing counts one more interruption and
/// clears the running start; resuming runs it from `now` with the count it
/// had; stopping completes it where asked (stops it otherwise), ends it at
/// `now`, counts at least nothing, and takes a given note.
pub proof fn law_timer_steps_keep_the_timer(s: FocusSession, now: Timestamp, input: StopFocusInput)
    requires
        s.interruptions < i32::MAX,
    ensures
        ({
            let p = paused_session(s, now);
            &&& p.state == FocusState::Paused && p.interruptions == s.interruptions + 1
            &&& p.last_started_at is None && p.id == s.id && p.task_id == s.task_id
            &&& p.method == s.method && p.started_at == s.started_at && p.note == s.note
        }),
        ({
            let q = resumed_session(s, now);
            &&& q.state == FocusState::Running && q.last_started_at == Some(now)
            &&& q.accumulated_seconds == s.accumulated_seconds && q.interruptions == s.interruptions
            &&& q.id == s.id && q.task_id == s.task_id && q.method == s.method
        }),
        ({
            let t = stopped_session(s, input, now);
            &&& (input.completed ==> t.state == FocusState::Completed)
            &&& (!input.completed ==> t.state == FocusState::Stopped)
            &&& t.ended_at == Some(now) && t.last_started_at is None
            &&& t.duration_seconds >= 0 || stopped_duration(s, now) > i64::MAX
            &&& (input.note matches Some(n) ==> t.note == n)
            &&& (input.note is None ==> t.note == s.note)
            &&& t.id == s.id && t.task_id == s.task_id && t.method == s.method && t.started_at
                == s.started_at
        }),
{
}

/// Pausing a running timer and then stopping it counts the same time as
/// stopping it at the moment it was paused: a paused timer counts nothing
/// more.
pub proof fn law_pause_then_stop_counts_no_more(
    s: FocusSession,
    paused_at: Timestamp,
    stopped_at: Timestamp,
    input: StopFocusInput,
)
    requires
        s.state == FocusState::Running,
        pause_fits(s, paused_at),
    ensures
        stopped_duration(paused_session(s, paused_at), stopped_at) == stopped_duration(
            s,
            paused_at,
        ),
        stopped_session(paused_session(s, paused_at), input, stopped_at).duration_seconds
            == stopped_session(s, input, paused_at).duration_seconds,
{
}

/// A timer counts the time of each running stretch: run from `t0` (as it
/// was started or resumed), paused at `t1`, resumed at `t2` and stopped at
/// `t3`, it counts what it had plus the seconds from `t0` to `t1` and from
/// `t2` to `t3`, and nothing of the pause between.
pub proof fn law_focus_time_adds_up(
    s: FocusSession,
    t1: Timestamp,
    t2: Timestamp,
    t3: Timestamp,
    input: StopFocusInput,
)
    requires
        s.state == FocusState::Running,
        s.accumulated_seconds >= 0,
        pause_fits(s, t1),
        stop_fits(resumed_session(paused_session(s, t1), t2), t3),
    ensures
        stopped_session(resumed_session(paused_session(s, t1), t2), input, t3).duration_seconds
            == s.accumulated_seconds + run_seconds(s.last_started_at, t1) + elapsed_seconds_spec(
            t2,
            t3,
        ),
{
    let p = paused_session(s, t1);
    assert(run_seconds(s.last_started_at, t1) >= 0);
    assert(p.accumulated_seconds == s.accumulated_seconds + run_seconds(s.last_started_at, t1));
    let q = resumed_session(p, t2);
    assert(elapsed_seconds_spec(t2, t3) >= 0) by {
        let d = ts_nanos_diff(t2, t3);
        if d > 0 {
            assert(d / 1_000_000_000 >= 0) by (nonlinear_arith)
                requires
                    d > 0,
            ;
        }
    }
}

/// The nanoseconds from `a` to `b`.
pub open spec fn ts_nanos_diff(a: Timestamp, b: Timestamp) -> int {
    crate::time::ts_nanos(b) - crate::time::ts_nanos(a)
}

/// Whether at least one timer is going.
pub fn any_active(states: &Vec<FocusState>) -> (r: bool)
    ensures
        r == exists|i: int| 0 <= i < states@.len() && (#[trigger] states@[i]).is_active_spec(),
{
    let mut i: usize = 0;
    while i < states.len()
        invariant
            i <= states@.len(),
            forall|j: int| 0 <= j < i ==> !(#[trigger] states@[j]).is_active_spec(),
        decreases states.len() - i,
    {
        if states[i].is_active() {
            return true;
        }
        i = i + 1;
    }
    false
}

/// How many finished timers a listing shows: the number asked for, kept
/// between 1 and 500.
pub fn recent_limit(limit: i64) -> (r: i64)
    ensures
        r == (if limit < 1 {
            1
        } else if limit > 500 {
            500
        } else {
            limit
        }),
{
    if limit < 1 {
        1
    } else if limit > 500 {
        500
    } else {
        limit
    }
}

} // verus!

verus! {

/// The columns of a stored timer, as text and numbers.
#[derive(Debug, Clone)]
pub struct FocusRow {
    pub id: String,
    pub task_id: Option<String>,
    pub task_title: String,
    pub method: String,
    pub focus_workflow: Option<String>,
    pub state: String,
    pub pomodoro_phase: Option<String>,
    pub pomodoro_cycle: i32,
    pub planned_seconds: i64,
    pub accumulated_seconds: i64,
    pub duration_seconds: i64,
    pub interruptions: i32,
    pub note: String,
    pub started_at: String,
    pub last_started_at: Option<String>,
    pub ended_at: Option<String>,
    pub created_at: String,
    pub updated_at: String,
}

/// A stored pomodoro phase, read back; an unknown name reads as none.
pub open spec fn row_phase(o: Option<String>) -> Option<PomodoroPhase> {
    match o {
        Some(v) => phase_from_column(v@),
        None => None,
    }
}

/// A stored instant, or the epoch where its text cannot be read.
pub open spec fn utc_or_epoch(s: String) -> Timestamp {
    match crate::time::parsed_utc(s@) {
        Some(t) => t,
        None => crate::time::epoch(),
    }
}

/// The timer a stored row describes, as seen at `now`: a running timer shows
/// what it had counted plus the time run since it was last started.
pub open spec fn session_from_row_spec(row: FocusRow, now: Timestamp) -> FocusSession {
    let state = state_from_column(row.state@);
    let last = crate::time::opt_parsed_utc(row.last_started_at);
    FocusSession {
        id: row.id,
        task_id: row.task_id,
        task_title: row.task_title,
        method: method_from_columns(row.method@, match row.focus_workflow {
            Some(w) => Some(w@),
            None => None,
        }),
        state,
        pomodoro_phase: row_phase(row.pomodoro_phase),
        pomodoro_cycle: row.pomodoro_cycle,
        planned_seconds: row.planned_seconds,
        accumulated_seconds: row.accumulated_seconds,
        elapsed_seconds: if state == FocusState::Running {
            (row.accumulated_seconds + run_seconds(last, now)) as i64
        } else {
            row.accumulated_seconds
        },
        duration_seconds: row.duration_seconds,
        interruptions: row.interruptions,
        note: row.note,
        started_at: utc_or_epoch(row.started_at),
        last_started_at: last,
        ended_at: crate::time::opt_parsed_utc(row.ended_at),
        created_at: utc_or_epoch(row.created_at),
        updated_at: utc_or_epoch(row.updated_at),
    }
}

/// Reading the row at `now` cannot overflow the time a running timer shows.
pub open spec fn row_fits(row: FocusRow, now: Timestamp) -> bool {
    state_from_column(row.state@) == FocusState::Running ==> row.accumulated_seconds + run_seconds(
        crate::time::opt_parsed_utc(row.last_started_at),
        now,
    ) <= i64::MAX
}

/// The timer a stored row describes, as seen at `now`.
pub fn session_from_row(row: FocusRow, now: Timestamp) -> (r: FocusSession)
    requires
        ts_in_range(now),
        row_fits(row, now),
    ensures
        r == session_from_row_spec(row, now),
{
    let state = FocusState::from_str(row.state.as_str());
    let workflow: Option<&str> = match &row.focus_workflow {
        Some(w) => Some(w.as_str()),
        None => None,
    };
    let method = FocusMethod::from_parts(row.method.as_str(), workflow);
    let last = crate::time::parse_utc_opt(&row.last_started_at);
    let elapsed = if state == FocusState::Running {
        row.accumulated_seconds + elapsed_since(last, now)
    } else {
        row.accumulated_seconds
    };
    let phase = match &row.pomodoro_phase {
        Some(v) => PomodoroPhase::from_str(v.as_str()),
        None => None,
    };
    let ended = crate::time::parse_utc_opt(&row.ended_at);
    let started = crate::time::parse_utc_or_epoch(row.started_at.as_str());
    let created = crate::time::parse_utc_or_epoch(row.created_at.as_str());
    let updated = crate::time::parse_utc_or_epoch(row.updated_at.as_str());
    FocusSession {
        id: row.id,
        task_id: row.task_id,
        task_title: row.task_title,
        method,
        state,
        pomodoro_phase: phase,
        pomodoro_cycle: row.pomodoro_cycle,
        planned_seconds: row.planned_seconds,
        accumulated_seconds: row.accumulated_seconds,
        elapsed_seconds: elapsed,
        duration_seconds: row.duration_seconds,
        interruptions: row.interruptions,
        note: row.note,
        started_at: started,
        last_started_at: last,
        ended_at: ended,
        created_at: created,
        updated_at: updated,
    }
}

/// The columns of a completed timer that the totals read.
#[derive(Debug, Clone)]
pub struct CompletedFocusRow {
    pub method: String,
    pub focus_workflow: Option<String>,
    pub duration_seconds: i64,
    pub started_at: String,
}

/// The totals over `rows`, as mathematical integers: today's seconds (those
/// whose start text begins with `today`), all seconds, the pomodoro count,
/// and the seconds of stopwatch and of flowtime timers.
pub open spec fn focus_totals(rows: Seq<CompletedFocusRow>, today: Seq<char>) -> (
    int,
    int,
    int,
    int,
    int,
)
    decreases rows.len(),
{
    if rows.len() == 0 {
        (0, 0, 0, 0, 0)
    } else {
        let (td, tot, pc, sw, fl) = focus_totals(rows.drop_last(), today);
        let r = rows.last();
        let secs = r.duration_seconds as int;
        let is_today = today.len() <= r.started_at@.len() && r.started_at@.take(today.len() as int)
            == today;
        let is_flow = r.focus_workflow matches Some(w) && w@ == "flowtime"@;
        (
            if is_today {
                td + secs
            } else {
                td
            },
            tot + secs,
            if r.method@ == "pomodoro"@ {
                pc + 1
            } else {
                pc
            },
            if !is_flow && r.method@ == "stopwatch"@ {
                sw + secs
            } else {
                sw
            },
            if is_flow {
                fl + secs
            } else {
                fl
            },
        )
    }
}

/// A completed timer run with the pomodoro method.
pub open spec fn is_pomodoro_row() -> spec_fn(CompletedFocusRow) -> bool {
    |r: CompletedFocusRow| r.method@ == "pomodoro"@
}

/// A completed timer that started on the day `today` (its start text begins
/// with `today`).
pub open spec fn started_on(today: Seq<char>) -> spec_fn(CompletedFocusRow) -> bool {
    |r: CompletedFocusRow| today.len() <= r.started_at@.len() && r.started_at@.take(
        today.len() as int,
    ) == today
}

/// A completed timer of the flowtime workflow.
pub open spec fn is_flowtime_row() -> spec_fn(CompletedFocusRow) -> bool {
    |r: CompletedFocusRow| r.focus_workflow matches Some(w) && w@ == "flowtime"@
}

/// A completed stopwatch timer outside the flowtime workflow.
pub open spec fn is_plain_stopwatch_row() -> spec_fn(CompletedFocusRow) -> bool {
    |r: CompletedFocusRow| !(r.focus_workflow matches Some(w) && w@ == "flowtime"@) && r.method@
        == "stopwatch"@
}

/// The seconds of the rows in `rows`, added up.
pub open spec fn seconds_of(rows: Seq<CompletedFocusRow>) -> int
    decreases rows.len(),
{
    if rows.len() == 0 {
        0
    } else {
        seconds_of(rows.drop_last()) + rows.last().duration_seconds
    }
}

/// The focus summary counts every completed pomodoro, whatever day it
/// started; it adds up the seconds of every timer, today's seconds are those
/// of the timers that started today, the flowtime seconds those of flowtime
/// timers and the stopwatch seconds those of the other stopwatch timers.
/// Only today's seconds depend on which day is today.
pub proof fn law_focus_totals_count_what_they_name(
    rows: Seq<CompletedFocusRow>,
    today: Seq<char>,
    other_day: Seq<char>,
)
    ensures
        focus_totals(rows, today).2 == rows.filter(is_pomodoro_row()).len(),
        focus_totals(rows, today).1 == seconds_of(rows),
        focus_totals(rows, today).0 == seconds_of(rows.filter(started_on(today))),
        focus_totals(rows, today).3 == seconds_of(rows.filter(is_plain_stopwatch_row())),
        focus_totals(rows, today).4 == seconds_of(rows.filter(is_flowtime_row())),
        focus_totals(rows, today).1 == focus_totals(rows, other_day).1,
        focus_totals(rows, today).2 == focus_totals(rows, other_day).2,
        focus_totals(rows, today).3 == focus_totals(rows, other_day).3,
        focus_totals(rows, today).4 == focus_totals(rows, other_day).4,
    decreases rows.len(),
{
    reveal_with_fuel(Seq::filter, 1);
    if rows.len() > 0 {
        let init = rows.drop_last();
        law_focus_totals_count_what_they_name(init, today, other_day);
        let sub = init.filter(started_on(today));
        if started_on(today)(rows.last()) {
            assert(rows.filter(started_on(today)) == sub.push(rows.last()));
            assert(sub.push(rows.last()).drop_last() =~= sub);
        } else {
            assert(rows.filter(started_on(today)) == sub);
        }
        let sw = init.filter(is_plain_stopwatch_row());
        if is_plain_stopwatch_row()(rows.last()) {
            assert(rows.filter(is_plain_stopwatch_row()) == sw.push(rows.last()));
            assert(sw.push(rows.last()).drop_last() =~= sw);
        } else {
            assert(rows.filter(is_plain_stopwatch_row()) == sw);
        }
        let fl = init.filter(is_flowtime_row());
        if is_flowtime_row()(rows.last()) {
            assert(rows.filter(is_flowtime_row()) == fl.push(rows.last()));
            assert(fl.push(rows.last()).drop_last() =~= fl);
        } else {
            assert(rows.filter(is_flowtime_row()) == fl);
        }
    }
}

/// `x` fits in an `i64`.
pub open spec fn fits_i64(x: int) -> bool {
    i64::MIN <= x <= i64::MAX
}

/// Every running total over a prefix of `rows` fits in an `i64`.
pub open spec fn totals_fit(rows: Seq<CompletedFocusRow>, today: Seq<char>) -> bool {
    forall|i: int|
        0 <= i <= rows.len() ==> {
            let t = #[trigger] focus_totals(rows.take(i), today);
            fits_i64(t.0) && fits_i64(t.1) && fits_i64(t.2) && fits_i64(t.3) && fits_i64(t.4)
        }
}

/// The totals over the completed timers `rows`; `today` is the current date
/// as `YYYY-MM-DD`.
pub fn summarize_focus(rows: &Vec<CompletedFocusRow>, today: &str) -> (r: FocusSummary)
    requires
        totals_fit(rows@, today@),
    ensures
        (r.today_seconds as int, r.total_seconds as int, r.pomodoro_count as int, r.stopwatch_seconds
            as int, r.flowtime_seconds as int) == focus_totals(rows@, today@),
{
    let mut summary = FocusSummary::default();
    let mut i: usize = 0;
    proof {
        assert(rows@.take(0) =~= Seq::<CompletedFocusRow>::empty());
    }
    while i < rows.len()
        invariant
            i <= rows@.len(),
            totals_fit(rows@, today@),
            (summary.today_seconds as int, summary.total_seconds as int, summary.pomodoro_count
                as int, summary.stopwatch_seconds as int, summary.flowtime_seconds as int)
                == focus_totals(rows@.take(i as int), today@),
        decreases rows.len() - i,
    {
        let row = &rows[i];
        proof {
            let next = rows@.take(i + 1);
            assert(next.drop_last() =~= rows@.take(i as int));
            assert(next.last() == rows@[i as int]);
            let _ = focus_totals(next, today@);
        }
        let secs = row.duration_seconds;
        summary.total_seconds = summary.total_seconds + secs;
        if crate::text::starts_with(row.started_at.as_str(), today) {
            summary.today_seconds = summary.today_seconds + secs;
        }
        if str_eq(row.method.as_str(), "pomodoro") {
            summary.pomodoro_count = summary.pomodoro_count + 1;
        }
        let is_flow = match &row.focus_workflow {
            Some(w) => str_eq(w.as_str(), "flowtime"),
            None => false,
        };
        if is_flow {
            summary.flowtime_seconds = summary.flowtime_seconds + secs;
        } else if str_eq(row.method.as_str(), "stopwatch") {
            summary.stopwatch_seconds = summary.stopwatch_seconds + secs;
        }
        i = i + 1;
    }
    proof {
        assert(rows@.take(rows@.len() as int) =~= rows@);
    }
    summary
}

} // verus!
