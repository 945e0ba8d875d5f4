use doyo_core::time::{calendar_day, day_or, parse_day};
use doyo_core::habit::stored_habit_days;
use doyo_core::tag::legacy_tag_list;
use doyo_core::activity::activity_changes;
use doyo_core::json::JsonNumber;
use doyo_core::countdown::{
    archive_update, clean_title as countdown_title, countdown_from_row, reorder_positions,
    update_countdown, Countdown, CountdownMode, CountdownRow, UpdateCountdownInput,
};
use doyo_core::error::Error;
use doyo_core::habit::{
    check_log_range, clean_title as habit_title, default_goal_unit, longest_daily_streak,
    sort_days, summarize_habits, HabitFrequency, HabitLogStatus, LoggedDay,
};
use doyo_core::json::{Json, JsonMember};
use doyo_core::node::model::Position;
use doyo_core::saved_filter::{
    clean_name as filter_name, plan_create_filter, plan_update_filter, validate_definition,
    UpdateSavedFilterInput,
};
use doyo_core::tag::{
    check_rename, clean_name as tag_name, count_legacy_assignments, legacy_tag_names,
    plan_create_tag,
};
use doyo_core::time::{CalendarDate, Timestamp};
use doyo_core::time_block::{
    block_from_row, plan_create, plan_update, validate_range, validate_task,
    CreateTimeBlockInput, LinkedTaskRow, TimeBlockRow, UpdateTimeBlockInput,
};

fn text(e: Error) -> String {
    match e {
        Error::Validation(m) => m,
        other => panic!("unexpected error {:?}", other),
    }
}

fn day(n: i32) -> CalendarDate {
    CalendarDate { days_from_ce: n }
}

fn t(secs: i64) -> Timestamp {
    Timestamp { secs, nanos: 0 }
}

#[test]
fn habit_names_round_trip_and_defaults() {
    for f in [HabitFrequency::Daily, HabitFrequency::Weekly] {
        assert_eq!(HabitFrequency::from_str(f.as_str()), f);
    }
    assert_eq!(HabitFrequency::from_str("monthly"), HabitFrequency::Daily);
    for s in [HabitLogStatus::Completed, HabitLogStatus::Skipped, HabitLogStatus::Partial] {
        assert_eq!(HabitLogStatus::from_str(s.as_str()), s);
    }
    assert_eq!(HabitLogStatus::from_str("?"), HabitLogStatus::Completed);
    assert_eq!(default_goal_unit(), "count");
    assert_eq!(habit_title("  Read  ").unwrap(), "Read");
    assert_eq!(text(habit_title(" \t ").unwrap_err()), "Habit title is required");
    assert!(check_log_range(day(5), day(5)).is_ok());
    assert_eq!(
        text(check_log_range(day(5), day(4)).unwrap_err()),
        "Habit log end date must be on or after start date"
    );
}

#[test]
fn habit_streaks_follow_consecutive_days() {
    let dates: Vec<CalendarDate> = [10, 11, 12, 14, 15].iter().map(|d| day(*d)).collect();
    assert_eq!(longest_daily_streak(&dates), 3);
    assert_eq!(longest_daily_streak(&[]), 0);
    let repeated: Vec<CalendarDate> = [4, 4, 5].iter().map(|d| day(*d)).collect();
    assert_eq!(longest_daily_streak(&repeated), 2);
    let run: Vec<CalendarDate> = (100..120).map(day).collect();
    assert_eq!(longest_daily_streak(&run), 20);
    assert_eq!(sort_days(&vec![5, -1, 3, 3]), vec![-1, 3, 3, 5]);
}

#[test]
fn habit_summary_counts_and_best_streak() {
    let start = 739_800;
    let log = |h: &str, d: i32, s: HabitLogStatus| LoggedDay {
        habit_id: h.into(),
        log_date: day(d),
        status: s,
    };
    let habits = vec!["read".to_string()];
    let logs = vec![
        log("read", start + 1, HabitLogStatus::Completed),
        log("read", start, HabitLogStatus::Completed),
    ];
    let totals = summarize_habits(&habits, &logs, day(start), day(start + 1), day(start + 1));
    assert_eq!(totals.active_count, 1);
    assert_eq!(totals.best_streak, 2);
    assert_eq!(totals.completed_count, 2);
    assert_eq!(totals.completed_today, 1);
    assert_eq!(totals.expected_count, 2);
    let more = vec![
        log("walk", start, HabitLogStatus::Skipped),
        log("walk", start + 1, HabitLogStatus::Completed),
        log("read", start + 3, HabitLogStatus::Completed),
    ];
    let two = vec!["read".to_string(), "walk".to_string()];
    let totals = summarize_habits(&two, &more, day(start + 2), day(start), day(start));
    assert_eq!(totals.expected_count, 2);
    assert_eq!(totals.completed_count, 2);
    assert_eq!(totals.completed_today, 0);
    assert_eq!(totals.best_streak, 1);
    let none = summarize_habits(&vec![], &more, day(start), day(start), day(start));
    assert_eq!(none.best_streak, 0);
}

fn countdown() -> Countdown {
    Countdown {
        id: "c1".into(),
        title: "Launch".into(),
        target_date: t(1_000),
        mode: CountdownMode::Countdown,
        icon: "rocket".into(),
        color: Some("#10B981".into()),
        recurrence: None,
        reminder_at: None,
        archived: false,
        position: Position(0),
        created_at: t(1),
        updated_at: t(1),
    }
}

#[test]
fn countdown_updates_change_only_named_fields() {
    assert_eq!(CountdownMode::from_str(CountdownMode::Countup.as_str()), CountdownMode::Countup);
    assert_eq!(CountdownMode::from_str("sideways"), CountdownMode::Countdown);
    assert_eq!(text(countdown_title(" ").unwrap_err()), "Countdown title is required");
    let mut input = archive_update(false);
    input.title = Some("  Launch day ".into());
    input.color = Some(None);
    let updated = update_countdown(countdown(), input, t(50)).unwrap();
    assert_eq!(updated.title, "Launch day");
    assert_eq!(updated.color, None);
    assert_eq!(updated.icon, "rocket");
    assert_eq!(updated.updated_at, t(50));
    assert_eq!(updated.created_at, t(1));
    let archived = update_countdown(countdown(), archive_update(true), t(60)).unwrap();
    assert!(archived.archived);
    assert_eq!(archived.title, "Launch");
    let mut bad = archive_update(false);
    bad.title = Some("   ".into());
    assert!(update_countdown(countdown(), bad, t(70)).is_err());
    assert_eq!(reorder_positions(3), vec![1000, 2000, 3000]);
    let untouched: UpdateCountdownInput = UpdateCountdownInput {
        title: None,
        target_date: None,
        mode: None,
        icon: None,
        color: None,
        recurrence: None,
        reminder_at: None,
        archived: None,
        position: None,
    };
    assert_eq!(update_countdown(countdown(), untouched, t(2)).unwrap().title, "Launch");
}

#[test]
fn countdown_rows_are_read_back() {
    let row = CountdownRow {
        id: "c".into(),
        title: "Since start".into(),
        target_date: "2026-07-29T08:00:00Z".into(),
        mode: "countup".into(),
        icon: "flag".into(),
        color: None,
        recurrence: Some("yearly".into()),
        reminder_at: Some("garbage".into()),
        archived: 1,
        position: Position(7),
        created_at: "2026-07-29T08:00:00Z".into(),
        updated_at: "2026-07-29T08:00:00Z".into(),
    };
    let c = countdown_from_row(row);
    assert_eq!(c.mode, CountdownMode::Countup);
    assert!(c.archived);
    assert_eq!(c.reminder_at, None);
    assert_eq!(c.target_date, t(1_785_312_000));
}

#[test]
fn time_blocks_must_end_after_they_start_and_link_tasks() {
    assert!(validate_range(t(10), t(11)).is_ok());
    assert_eq!(text(validate_range(t(10), t(10)).unwrap_err()), "Time block end must be after start");
    let task = LinkedTaskRow { node_type: "Task".into(), deleted_at: None };
    let note = LinkedTaskRow { node_type: "Note".into(), deleted_at: None };
    assert!(validate_task(&None, &None).is_ok());
    assert!(validate_task(&Some("t".into()), &Some(task.clone())).is_ok());
    assert_eq!(text(validate_task(&Some("t".into()), &None).unwrap_err()), "Linked task does not exist");
    assert_eq!(
        text(validate_task(&Some("t".into()), &Some(note)).unwrap_err()),
        "Time block can only link to an active task"
    );
    let input = CreateTimeBlockInput {
        task_id: Some("t".into()),
        title: "Practice".into(),
        start_time: t(100),
        end_time: t(200),
        all_day: false,
        notes: "Imported with task".into(),
    };
    let block = plan_create(input.clone(), Some(task), "b".into(), t(5)).unwrap();
    assert_eq!(block.title, "Practice");
    let backwards = CreateTimeBlockInput { end_time: t(50), ..input };
    assert!(plan_create(backwards, None, "b".into(), t(5)).is_err());
    let change = UpdateTimeBlockInput {
        task_id: Some(None),
        title: None,
        start_time: Some(t(150)),
        end_time: None,
        all_day: Some(true),
        notes: None,
    };
    let moved = plan_update(block.clone(), change, None, t(9)).unwrap();
    assert_eq!(moved.task_id, None);
    assert_eq!(moved.start_time, t(150));
    assert!(moved.all_day);
    let bad = UpdateTimeBlockInput {
        task_id: None,
        title: None,
        start_time: Some(t(300)),
        end_time: None,
        all_day: None,
        notes: None,
    };
    assert!(plan_update(block, bad, None, t(9)).is_err());
    let row = TimeBlockRow {
        id: "b".into(),
        task_id: None,
        title: "x".into(),
        start_time: "2026-07-29T08:00:00Z".into(),
        end_time: "bad".into(),
        all_day: 0,
        notes: String::new(),
        created_at: String::new(),
        updated_at: String::new(),
    };
    let read = block_from_row(row);
    assert_eq!(read.start_time, t(1_785_312_000));
    assert_eq!(read.end_time, t(0));
}

fn object(members: Vec<(&str, Json)>) -> Json {
    Json::Object(
        members.into_iter().map(|(k, v)| JsonMember { key: k.to_string(), value: v }).collect(),
    )
}

#[test]
fn saved_filters_need_a_name_and_an_object() {
    assert_eq!(filter_name(" Study ").unwrap(), "Study");
    assert_eq!(text(filter_name(" ").unwrap_err()), "Saved filter name is required");
    assert!(validate_definition(&object(vec![])).is_ok());
    let array = Json::Array(vec![Json::Str("not".into()), Json::Str("object".into())]);
    assert_eq!(
        text(validate_definition(&array).unwrap_err()),
        "Saved filter definition must be an object"
    );
    let created = plan_create_filter(
        "High priority study",
        object(vec![("priority", Json::Number(doyo_core::json::JsonNumber::PosInt(1)))]),
        "f".into(),
        Position(0),
        t(1),
    )
    .unwrap();
    assert_eq!(created.name, "High priority study");
    assert!(plan_create_filter(" ", object(vec![]), "f".into(), Position(0), t(1)).is_err());
    let updated = plan_update_filter(
        created,
        UpdateSavedFilterInput { name: Some("Study P1".into()), definition: None, position: Some(Position(9)) },
        t(2),
    )
    .unwrap();
    assert_eq!(updated.name, "Study P1");
    assert_eq!(updated.position, Position(9));
    let again = plan_update_filter(
        updated,
        UpdateSavedFilterInput { name: None, definition: Some(Json::Null), position: None },
        t(3),
    );
    assert!(again.is_err());
}

#[test]
fn tag_names_are_trimmed_and_unique() {
    assert_eq!(tag_name(" study ").unwrap(), "study");
    assert_eq!(text(tag_name("  ").unwrap_err()), "Tag name is required");
    let tag = plan_create_tag(" Study ", Some("#22c55e"), "id".into(), "now".into()).unwrap();
    assert_eq!(tag.name, "Study");
    assert_eq!(tag.color.as_deref(), Some("#22c55e"));
    assert_eq!(text(check_rename(" study ", true).unwrap_err()), "Tag already exists: study");
    assert_eq!(check_rename("Math", false).unwrap(), "Math");
    let raw = vec![" study ".to_string(), "".to_string(), "  ".to_string(), "math".to_string()];
    assert_eq!(legacy_tag_names(&raw), vec!["study".to_string(), "math".to_string()]);
    assert_eq!(count_legacy_assignments(&vec![raw.clone(), vec!["x".into()]]), 3);
}

#[test]
fn stored_days_read_through_chrono() {
    assert_eq!(parse_day("2026-07-29"), Some(CalendarDate { days_from_ce: 739826 }));
    assert_eq!(parse_day("0001-01-01"), Some(CalendarDate { days_from_ce: 1 }));
    assert_eq!(parse_day("2026-02-30"), None);
    assert_eq!(parse_day("yesterday"), None);
    let today = CalendarDate { days_from_ce: 5 };
    assert_eq!(day_or("2024-02-29", today), CalendarDate { days_from_ce: 738945 });
    assert_eq!(day_or("", today), today);
    assert_eq!(calendar_day(2024, 2, 29), Some(CalendarDate { days_from_ce: 738945 }));
    assert_eq!(calendar_day(2023, 2, 29), None);
}

#[test]
fn habit_days_column_reads_whole_lists_only() {
    assert_eq!(stored_habit_days("[1,3,5]"), vec![1, 3, 5]);
    assert_eq!(stored_habit_days("[]"), Vec::<u32>::new());
    assert_eq!(stored_habit_days("[1,-2]"), Vec::<u32>::new());
    assert_eq!(stored_habit_days("[1,2.5]"), Vec::<u32>::new());
    assert_eq!(stored_habit_days("[4294967296]"), Vec::<u32>::new());
    assert_eq!(stored_habit_days("{\"a\":1}"), Vec::<u32>::new());
    assert_eq!(stored_habit_days("not json"), Vec::<u32>::new());
}

#[test]
fn legacy_tag_lists_are_read_from_their_text() {
    assert_eq!(legacy_tag_list("[\"Work\", \" home \"]"), vec!["Work", " home "]);
    assert!(legacy_tag_list("[\"Work\", 3]").is_empty());
    assert!(legacy_tag_list("\"Work\"").is_empty());
    assert!(legacy_tag_list("[").is_empty());
}

#[test]
fn activity_changes_read_or_null() {
    assert_eq!(activity_changes("not json"), Json::Null);
    assert_eq!(
        activity_changes("{\"priority\":2}"),
        Json::Object(vec![JsonMember { key: "priority".into(), value: Json::Number(JsonNumber::PosInt(2)) }])
    );
}
