use vstd::prelude::*;
use crate::error::{is_validation, Error};
use crate::node::model::{parse_node_type, NodeType};
use crate::time::{ts_le, Timestamp};

verus! {

/// A stretch of time set aside on the calendar, perhaps for a task.
#[derive(Debug, Clone)]
pub struct TimeBlock {
    pub id: String,
    pub task_id: Option<String>,
    pub title: String,
    pub start_time: Timestamp,
    pub end_time: Timestamp,
    pub all_day: bool,
    pub notes: String,
    pub created_at: Timestamp,
    pub updated_at: Timestamp,
}

/// What a new time block is made of.
#[derive(Debug, Clone)]
pub struct CreateTimeBlockInput {
    pub task_id: Option<String>,
    pub title: String,
    pub start_time: Timestamp,
    pub end_time: Timestamp,
    pub all_day: bool,
    pub notes: String,
}

/// The fields an update changes; `None` keeps a field, and `Some(None)` as
/// the task unlinks it.
#[derive(Debug, Clone)]
pub struct UpdateTimeBlockInput {
    pub task_id: Option<Option<String>>,
    pub title: Option<String>,
    pub start_time: Option<Timestamp>,
    pub end_time: Option<Timestamp>,
    pub all_day: Option<bool>,
    pub notes: Option<String>,
}

/// The stored type and trash mark of the node a block or timer links to.
#[derive(Debug, Clone)]
pub struct LinkedTaskRow {
    pub node_type: String,
    pub deleted_at: Option<String>,
}

/// A block ends strictly after it starts.
pub open spec fn range_ok(start: Timestamp, end: Timestamp) -> bool {
    !ts_le(end, start)
}

/// Refuses a block that does not end after it starts.
pub fn validate_range(start: Timestamp, end: Timestamp) -> (r: Result<(), Error>)
    ensures
        range_ok(start, end) ==> r is Ok,
        !range_ok(start, end) ==> (r matches Err(e) && is_validation(
            e,
            "Time block end must be after start"@,
        )),
{
    if end.not_after(&start) {
        return Err(crate::error::validation_error("Time block end must be after start"));
    }
    Ok(())
}

/// Why a block cannot link to `task_id`, whose stored row is `row`, if it
/// cannot: the node must exist, be a task and not be in the trash.
pub open spec fn task_link_error(task_id: Option<String>, row: Option<LinkedTaskRow>) -> Option<
    Seq<char>,
> {
    match task_id {
        None => None,
        Some(_) => match row {
            None => Some("Linked task does not exist"@),
            Some(r) => if parse_node_type(r.node_type@) != Some(NodeType::Task)
                || r.deleted_at is Some {
                Some("Time block can only link to an active task"@)
            } else {
                None
            },
        },
    }
}

/// Checks the task a block links to, from its stored row (`None` where no
/// node has that id).
pub fn validate_task(task_id: &Option<String>, row: &Option<LinkedTaskRow>) -> (r: Result<
    (),
    Error,
>)
    ensures
        match task_link_error(*task_id, *row) {
            None => r is Ok,
            Some(msg) => r matches Err(e) && is_validation(e, msg),
        },
{
    match task_id {
        None => Ok(()),
        Some(_) => match row {
            None => Err(crate::error::validation_error("Linked task does not exist")),
            Some(r) => {
                let is_task = match NodeType::parse(r.node_type.as_str()) {
                    Some(NodeType::Task) => true,
                    _ => false,
                };
                if !is_task || r.deleted_at.is_some() {
                    Err(crate::error::validation_error("Time block can only link to an active task"))
                } else {
                    Ok(())
                }
            },
        },
    }
}

/// The block that creating `input` stores under `id` at `now`.
pub open spec fn created_block(input: CreateTimeBlockInput, id: String, now: Timestamp) -> TimeBlock {
    TimeBlock {
        id,
        task_id: input.task_id,
        title: input.title,
        start_time: input.start_time,
        end_time: input.end_time,
        all_day: input.all_day,
        notes: input.notes,
        created_at: now,
        updated_at: now,
    }
}

/// A new block holds what it was created with, under its id, created and
/// last updated at `now`.
pub proof fn law_created_block_holds_its_input(input: CreateTimeBlockInput, id: String, now: Timestamp)
    ensures
        ({
            let b = created_block(input, id, now);
            &&& b.id == id && b.task_id == input.task_id && b.title == input.title
            &&& b.start_time == input.start_time && b.end_time == input.end_time
            &&& b.all_day == input.all_day && b.notes == input.notes
            &&& b.created_at == now && b.updated_at == now
        }),
{
}

/// Creates a block: the range is checked first, then the linked task.
pub fn plan_create(
    input: CreateTimeBlockInput,
    task_row: Option<LinkedTaskRow>,
    id: String,
    now: Timestamp,
) -> (r: Result<TimeBlock, Error>)
    ensures
        !range_ok(input.start_time, input.end_time) ==> (r matches Err(e) && is_validation(
            e,
            "Time block end must be after start"@,
        )),
        range_ok(input.start_time, input.end_time) ==> match task_link_error(
            input.task_id,
            task_row,
        ) {
            Some(msg) => r matches Err(e) && is_validation(e, msg),
            None => r == Ok::<TimeBlock, Error>(created_block(input, id, now)),
        },
        r matches Ok(b) ==> range_ok(b.start_time, b.end_time),
{
    validate_range(input.start_time, input.end_time)?;
    validate_task(&input.task_id, &task_row)?;
    Ok(
        TimeBlock {
            id,
            task_id: input.task_id,
            title: input.title,
            start_time: input.start_time,
            end_time: input.end_time,
            all_day: input.all_day,
            notes: input.notes,
            created_at: now,
            updated_at: now,
        },
    )
}

/// The task a block links to after `input`.
pub open spec fn next_task(b: TimeBlock, input: UpdateTimeBlockInput) -> Option<String> {
    match input.task_id {
        Some(t) => t,
        None => b.task_id,
    }
}

/// The block after `input` is applied at `now`.
pub open spec fn updated_block(b: TimeBlock, input: UpdateTimeBlockInput, now: Timestamp) -> TimeBlock {
    TimeBlock {
        id: b.id,
        task_id: next_task(b, input),
        title: crate::countdown::or_keep(input.title, b.title),
        start_time: crate::countdown::or_keep(input.start_time, b.start_time),
        end_time: crate::countdown::or_keep(input.end_time, b.end_time),
        all_day: crate::countdown::or_keep(input.all_day, b.all_day),
        notes: crate::countdown::or_keep(input.notes, b.notes),
        created_at: b.created_at,
        updated_at: now,
    }
}

/// An update takes every field it gives and keeps every field it leaves
/// out (a given task link may also clear the link); the id and creation
/// time stay, and the update time becomes `now`.
pub proof fn law_block_update_takes_given_fields(b: TimeBlock, input: UpdateTimeBlockInput, now: Timestamp)
    ensures
        ({
            let u = updated_block(b, input, now);
            &&& u.id == b.id && u.created_at == b.created_at && u.updated_at == now
            &&& match input.task_id {
                Some(v) => u.task_id == v,
                None => u.task_id == b.task_id,
            }
            &&& match input.title {
                Some(v) => u.title == v,
                None => u.title == b.title,
            }
            &&& match input.start_time {
                Some(v) => u.start_time == v,
                None => u.start_time == b.start_time,
            }
            &&& match input.end_time {
                Some(v) => u.end_time == v,
                None => u.end_time == b.end_time,
            }
            &&& match input.all_day {
                Some(v) => u.all_day == v,
                None => u.all_day == b.all_day,
            }
            &&& match input.notes {
                Some(v) => u.notes == v,
                None => u.notes == b.notes,
            }
        }),
{
}

/// Applies an update at `now`: the resulting range is checked first, then
/// the task the block then links to (`task_row` is its stored row).
pub fn plan_update(
    current: TimeBlock,
    input: UpdateTimeBlockInput,
    task_row: Option<LinkedTaskRow>,
    now: Timestamp,
) -> (r: Result<TimeBlock, Error>)
    ensures
        ({
            let n = updated_block(current, input, now);
            &&& !range_ok(n.start_time, n.end_time) ==> (r matches Err(e) && is_validation(
                e,
                "Time block end must be after start"@,
            ))
            &&& range_ok(n.start_time, n.end_time) ==> match task_link_error(
                n.task_id,
                task_row,
            ) {
                Some(msg) => r matches Err(e) && is_validation(e, msg),
                None => r == Ok::<TimeBlock, Error>(n),
            }
        }),
        r matches Ok(b) ==> range_ok(b.start_time, b.end_time),
{
    let task_id = match input.task_id {
        Some(t) => t,
        None => current.task_id,
    };
    let start = match input.start_time {
        Some(v) => v,
        None => current.start_time,
    };
    let end = match input.end_time {
        Some(v) => v,
        None => current.end_time,
    };
    validate_range(start, end)?;
    validate_task(&task_id, &task_row)?;
    Ok(
        TimeBlock {
            id: current.id,
            task_id,
            title: match input.title {
                Some(v) => v,
                None => current.title,
            },
            start_time: start,
            end_time: end,
            all_day: match input.all_day {
                Some(v) => v,
                None => current.all_day,
            },
            notes: match input.notes {
                Some(v) => v,
                None => current.notes,
            },
            created_at: current.created_at,
            updated_at: now,
        },
    )
}

/// The columns of a stored time block.
#[derive(Debug, Clone)]
pub struct TimeBlockRow {
    pub id: String,
    pub task_id: Option<String>,
    pub title: String,
    pub start_time: String,
    pub end_time: String,
    pub all_day: i32,
    pub notes: String,
    pub created_at: String,
    pub updated_at: String,
}

/// The block a stored row describes; unreadable instants read as the epoch.
pub open spec fn block_from_row_spec(row: TimeBlockRow) -> TimeBlock {
    TimeBlock {
        id: row.id,
        task_id: row.task_id,
        title: row.title,
        start_time: crate::focus::utc_or_epoch(row.start_time),
        end_time: crate::focus::utc_or_epoch(row.end_time),
        all_day: row.all_day != 0,
        notes: row.notes,
        created_at: crate::focus::utc_or_epoch(row.created_at),
        updated_at: crate::focus::utc_or_epoch(row.updated_at),
    }
}

/// The block a stored row describes.
pub fn block_from_row(row: TimeBlockRow) -> (r: TimeBlock)
    ensures
        r == block_from_row_spec(row),
{
    let start = crate::time::parse_utc_or_epoch(row.start_time.as_str());
    let end = crate::time::parse_utc_or_epoch(row.end_time.as_str());
    let created = crate::time::parse_utc_or_epoch(row.created_at.as_str());
    let updated = crate::time::parse_utc_or_epoch(row.updated_at.as_str());
    TimeBlock {
        id: row.id,
        task_id: row.task_id,
        title: row.title,
        start_time: start,
        end_time: end,
        all_day: row.all_day != 0,
        notes: row.notes,
        created_at: created,
        updated_at: updated,
    }
}

} // verus!
