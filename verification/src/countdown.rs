use vstd::prelude::*;
use crate::error::{is_validation, Error};
use crate::node::model::Position;
use crate::text::{str_eq, trim_seq};
use crate::time::Timestamp;

verus! {

/// Whether a countdown counts down to its date or up from it.
#[derive(Debug, Clone, Copy, PartialEq, Eq, Structural)]
pub enum CountdownMode {
    Countdown,
    Countup,
}

/// The name a mode is stored under.
pub open spec fn mode_column(m: CountdownMode) -> Seq<char> {
    match m {
        CountdownMode::Countdown => "countdown"@,
        CountdownMode::Countup => "countup"@,
    }
}

/// The mode read back from its name; anything but `countup` counts down.
pub open spec fn mode_from_column(value: Seq<char>) -> CountdownMode {
    if value == "countup"@ {
        CountdownMode::Countup
    } else {
        CountdownMode::Countdown
    }
}

impl CountdownMode {
    /// The name this mode is stored under.
    pub fn as_str(&self) -> (r: &'static str)
        ensures
            r@ == mode_column(*self),
    {
        match self {
            CountdownMode::Countdown => "countdown",
            CountdownMode::Countup => "countup",
        }
    }

    /// The mode stored under `value`; anything but `countup` counts down.
    pub fn from_str(value: &str) -> (r: CountdownMode)
        ensures
            r == mode_from_column(value@),
    {
        if str_eq(value, "countup") {
            CountdownMode::Countup
        } else {
            CountdownMode::Countdown
        }
    }
}

/// Every mode is read back as the mode that was stored.
pub proof fn law_countdown_mode_round_trip(m: CountdownMode)
    ensures
        mode_from_column(mode_column(m)) == m,
{
    reveal_strlit("countdown");
    reveal_strlit("countup");
    assert("countdown"@.len() == 9);
    assert("countup"@.len() == 7);
}

/// A countdown title as stored: trimmed, and refused when nothing is left.
pub fn clean_title(value: &str) -> (r: Result<String, Error>)
    ensures
        trim_seq(value@).len() == 0 ==> (r matches Err(e) && is_validation(
            e,
            "Countdown title is required"@,
        )),
        trim_seq(value@).len() > 0 ==> (r matches Ok(t) && t@ == trim_seq(value@)),
{
    let clean = crate::text::trim(value);
    if clean.unicode_len() == 0 {
        return Err(crate::error::validation_error("Countdown title is required"));
    }
    Ok(clean.to_owned())
}

/// A date counted down to or up from.
#[derive(Debug, Clone)]
pub struct Countdown {
    pub id: String,
    pub title: String,
    pub target_date: Timestamp,
    pub mode: CountdownMode,
    pub icon: String,
    pub color: Option<String>,
    pub recurrence: Option<String>,
    pub reminder_at: Option<Timestamp>,
    pub archived: bool,
    pub position: Position,
    pub created_at: Timestamp,
    pub updated_at: Timestamp,
}

/// The fields an update changes; `None` keeps a field, and for the optional
/// fields `Some(None)` clears it.
#[derive(Debug, Clone)]
pub struct UpdateCountdownInput {
    pub title: Option<String>,
    pub target_date: Option<Timestamp>,
    pub mode: Option<CountdownMode>,
    pub icon: Option<String>,
    pub color: Option<Option<String>>,
    pub recurrence: Option<Option<String>>,
    pub reminder_at: Option<Option<Timestamp>>,
    pub archived: Option<bool>,
    pub position: Option<Position>,
}

/// `o`'s value, or `d` where there is none.
pub open spec fn or_keep<T>(o: Option<T>, d: T) -> T {
    match o {
        Some(v) => v,
        None => d,
    }
}

/// The countdown after `input` is applied at `now`, its title given as
/// `title`.
pub open spec fn updated_countdown(
    c: Countdown,
    input: UpdateCountdownInput,
    title: String,
    now: Timestamp,
) -> Countdown {
    Countdown {
        id: c.id,
        title,
        target_date: or_keep(input.target_date, c.target_date),
        mode: or_keep(input.mode, c.mode),
        icon: or_keep(input.icon, c.icon),
        color: or_keep(input.color, c.color),
        recurrence: or_keep(input.recurrence, c.recurrence),
        reminder_at: or_keep(input.reminder_at, c.reminder_at),
        archived: or_keep(input.archived, c.archived),
        position: or_keep(input.position, c.position),
        created_at: c.created_at,
        updated_at: now,
    }
}

/// An update takes every field it gives and keeps every field it leaves
/// out; the id and creation time stay, and the update time becomes `now`.
pub proof fn law_countdown_update_takes_given_fields(
    c: Countdown,
    input: UpdateCountdownInput,
    title: String,
    now: Timestamp,
)
    ensures
        ({
            let u = updated_countdown(c, input, title, now);
            &&& u.id == c.id && u.title == title && u.created_at == c.created_at && u.updated_at
                == now
            &&& match input.target_date {
                Some(v) => u.target_date == v,
                None => u.target_date == c.target_date,
            }
            &&& match input.mode {
                Some(v) => u.mode == v,
                None => u.mode == c.mode,
            }
            &&& match input.icon {
                Some(v) => u.icon == v,
                None => u.icon == c.icon,
            }
            &&& match input.color {
                Some(v) => u.color == v,
                None => u.color == c.color,
            }
            &&& match input.recurrence {
                Some(v) => u.recurrence == v,
                None => u.recurrence == c.recurrence,
            }
            &&& match input.reminder_at {
                Some(v) => u.reminder_at == v,
                None => u.reminder_at == c.reminder_at,
            }
            &&& match input.archived {
                Some(v) => u.archived == v,
                None => u.archived == c.archived,
            }
            &&& match input.position {
                Some(v) => u.position == v,
                None => u.position == c.position,
            }
        }),
{
}

/// Applies an update to a countdown at `now`: a new title is trimmed and must
/// not be empty; every other field given replaces the stored one.
pub fn update_countdown(current: Countdown, input: UpdateCountdownInput, now: Timestamp) -> (r:
    Result<Countdown, Error>)
    ensures
        match input.title {
            Some(t) => if trim_seq(t@).len() == 0 {
                r matches Err(e) && is_validation(e, "Countdown title is required"@)
            } else {
                r matches Ok(c) && c.title@ == trim_seq(t@) && c == updated_countdown(
                    current,
                    input,
                    c.title,
                    now,
                )
            },
            None => r == Ok::<Countdown, Error>(
                updated_countdown(current, input, current.title, now),
            ),
        },
{
    let title = match input.title {
        Some(value) => clean_title(value.as_str())?,
        None => current.title,
    };
    Ok(
        Countdown {
            id: current.id,
            title,
            target_date: match input.target_date {
                Some(v) => v,
                None => current.target_date,
            },
            mode: match input.mode {
                Some(v) => v,
                None => current.mode,
            },
            icon: match input.icon {
                Some(v) => v,
                None => current.icon,
            },
            color: match input.color {
                Some(v) => v,
                None => current.color,
            },
            recurrence: match input.recurrence {
                Some(v) => v,
                None => current.recurrence,
            },
            reminder_at: match input.reminder_at {
                Some(v) => v,
                None => current.reminder_at,
            },
            archived: match input.archived {
                Some(v) => v,
                None => current.archived,
            },
            position: match input.position {
                Some(v) => v,
                None => current.position,
            },
            created_at: current.created_at,
            updated_at: now,
        },
    )
}

/// The update that only archives or restores a countdown.
pub fn archive_update(archived: bool) -> (r: UpdateCountdownInput)
    ensures
        r.archived == Some(archived),
        r.title is None && r.target_date is None && r.mode is None && r.icon is None,
        r.color is None && r.recurrence is None && r.reminder_at is None && r.position is None,
{
    UpdateCountdownInput {
        title: None,
        target_date: None,
        mode: None,
        icon: None,
        color: None,
        recurrence: None,
        reminder_at: None,
        archived: Some(archived),
        position: None,
    }
}

/// An update that names no field leaves the countdown as it was, but for the
/// time it was last changed.
pub proof fn law_empty_update_keeps_countdown(c: Countdown, now: Timestamp, archived: bool)
    ensures
        ({
            let u = UpdateCountdownInput {
                title: None,
                target_date: None,
                mode: None,
                icon: None,
                color: None,
                recurrence: None,
                reminder_at: None,
                archived: None,
                position: None,
            };
            updated_countdown(c, u, c.title, now) == (Countdown { updated_at: now, ..c })
        }),
        ({
            let u = UpdateCountdownInput {
                title: None,
                target_date: None,
                mode: None,
                icon: None,
                color: None,
                recurrence: None,
                reminder_at: None,
                archived: Some(archived),
                position: None,
            };
            updated_countdown(c, u, c.title, now) == (Countdown {
                archived,
                updated_at: now,
                ..c
            })
        }),
{
}

/// The position given to the countdown listed at `index` when countdowns are
/// put in a new order: 1000, 2000, 3000, ...
pub open spec fn reorder_position(index: int) -> int {
    (index + 1) * 1000
}

/// The positions, as whole numbers, that a new order of `count` countdowns
/// gives them, in that order.
pub fn reorder_positions(count: usize) -> (r: Vec<u64>)
    requires
        count < u64::MAX / 1000,
    ensures
        r@.len() == count,
        forall|i: int| 0 <= i < count ==> r@[i] == reorder_position(i),
{
    let mut out: Vec<u64> = Vec::new();
    let mut i: usize = 0;
    while i < count
        invariant
            i <= count,
            count < u64::MAX / 1000,
            out@.len() == i,
            forall|j: int| 0 <= j < i ==> out@[j] == reorder_position(j),
        decreases count - i,
    {
        out.push((i as u64 + 1) * 1000);
        i = i + 1;
    }
    out
}

/// A new order puts the countdowns in exactly the order given.
pub proof fn law_reorder_keeps_given_order(i: int, j: int)
    requires
        0 <= i < j,
    ensures
        reorder_position(i) < reorder_position(j),
{
}

} // verus!

verus! {

/// The columns of a stored countdown.
#[derive(Debug, Clone)]
pub struct CountdownRow {
    pub id: String,
    pub title: String,
    pub target_date: String,
    pub mode: String,
    pub icon: String,
    pub color: Option<String>,
    pub recurrence: Option<String>,
    pub reminder_at: Option<String>,
    pub archived: i32,
    pub position: Position,
    pub created_at: String,
    pub updated_at: String,
}

/// The countdown a stored row describes; unreadable instants read as the
/// epoch (an unreadable reminder as none).
pub open spec fn countdown_from_row_spec(row: CountdownRow) -> Countdown {
    Countdown {
        id: row.id,
        title: row.title,
        target_date: crate::focus::utc_or_epoch(row.target_date),
        mode: mode_from_column(row.mode@),
        icon: row.icon,
        color: row.color,
        recurrence: row.recurrence,
        reminder_at: crate::time::opt_parsed_utc(row.reminder_at),
        archived: row.archived != 0,
        position: row.position,
        created_at: crate::focus::utc_or_epoch(row.created_at),
        updated_at: crate::focus::utc_or_epoch(row.updated_at),
    }
}

/// The countdown a stored row describes.
pub fn countdown_from_row(row: CountdownRow) -> (r: Countdown)
    ensures
        r == countdown_from_row_spec(row),
{
    let target = crate::time::parse_utc_or_epoch(row.target_date.as_str());
    let mode = CountdownMode::from_str(row.mode.as_str());
    let reminder = crate::time::parse_utc_opt(&row.reminder_at);
    let created = crate::time::parse_utc_or_epoch(row.created_at.as_str());
    let updated = crate::time::parse_utc_or_epoch(row.updated_at.as_str());
    Countdown {
        id: row.id,
        title: row.title,
        target_date: target,
        mode,
        icon: row.icon,
        color: row.color,
        recurrence: row.recurrence,
        reminder_at: reminder,
        archived: row.archived != 0,
        position: row.position,
        created_at: created,
        updated_at: updated,
    }
}

} // verus!
