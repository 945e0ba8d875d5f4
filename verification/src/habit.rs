use vstd::prelude::*;
use vstd::relations::{sorted_by, total_ordering};
use crate::error::{is_validation, Error};
use crate::text::{str_eq, trim_seq};
use crate::time::CalendarDate;
use crate::json::{items_view, lemma_items_view, Json, JsonNumber, JsonView};
use crate::json_text::{parse_json, parsed_json};

verus! {

/// How often a habit is meant to be done.
#[derive(Debug, Clone, Copy, PartialEq, Eq, Structural)]
pub enum HabitFrequency {
    Daily,
    Weekly,
}

/// The name a frequency is stored under.
pub open spec fn frequency_column(f: HabitFrequency) -> Seq<char> {
    match f {
        HabitFrequency::Daily => "daily"@,
        HabitFrequency::Weekly => "weekly"@,
    }
}

/// The frequency read back from its name; anything but `weekly` is daily.
pub open spec fn frequency_from_column(value: Seq<char>) -> HabitFrequency {
    if value == "weekly"@ {
        HabitFrequency::Weekly
    } else {
        HabitFrequency::Daily
    }
}

impl HabitFrequency {
    /// The name this frequency is stored under.
    pub fn as_str(&self) -> (r: &'static str)
        ensures
            r@ == frequency_column(*self),
    {
        match self {
            HabitFrequency::Daily => "daily",
            HabitFrequency::Weekly => "weekly",
        }
    }

    /// The frequency stored under `value`; anything but `weekly` is daily.
    pub fn from_str(value: &str) -> (r: HabitFrequency)
        ensures
            r == frequency_from_column(value@),
    {
        if str_eq(value, "weekly") {
            HabitFrequency::Weekly
        } else {
            HabitFrequency::Daily
        }
    }
}

/// Every frequency is read back as the frequency that was stored.
pub proof fn law_habit_frequency_round_trip(f: HabitFrequency)
    ensures
        frequency_from_column(frequency_column(f)) == f,
{
    reveal_strlit("daily");
    reveal_strlit("weekly");
    assert("daily"@.len() == 5);
}

/// What became of a habit on a day.
#[derive(Debug, Clone, Copy, PartialEq, Eq, Structural)]
pub enum HabitLogStatus {
    Completed,
    Skipped,
    Partial,
}

/// The name a status is stored under.
pub open spec fn log_status_column(s: HabitLogStatus) -> Seq<char> {
    match s {
        HabitLogStatus::Completed => "completed"@,
        HabitLogStatus::Skipped => "skipped"@,
        HabitLogStatus::Partial => "partial"@,
    }
}

/// The status read back from its name; an unknown name reads as completed.
pub open spec fn log_status_from_column(value: Seq<char>) -> HabitLogStatus {
    if value == "skipped"@ {
        HabitLogStatus::Skipped
    } else if value == "partial"@ {
        HabitLogStatus::Partial
    } else {
        HabitLogStatus::Completed
    }
}

impl HabitLogStatus {
    /// The name this status is stored under.
    pub fn as_str(&self) -> (r: &'static str)
        ensures
            r@ == log_status_column(*self),
    {
        match self {
            HabitLogStatus::Completed => "completed",
            HabitLogStatus::Skipped => "skipped",
            HabitLogStatus::Partial => "partial",
        }
    }

    /// The status stored under `value`; an unknown name reads as completed.
    pub fn from_str(value: &str) -> (r: HabitLogStatus)
        ensures
            r == log_status_from_column(value@),
    {
        if str_eq(value, "skipped") {
            HabitLogStatus::Skipped
        } else if str_eq(value, "partial") {
            HabitLogStatus::Partial
        } else {
            HabitLogStatus::Completed
        }
    }
}

/// Every status is read back as the status that was stored.
pub proof fn law_habit_log_status_round_trip(s: HabitLogStatus)
    ensures
        log_status_from_column(log_status_column(s)) == s,
{
    reveal_strlit("completed");
    reveal_strlit("skipped");
    reveal_strlit("partial");
    assert("completed"@.len() == 9);
    assert("skipped"@.len() == 7);
    assert("partial"@.len() == 7);
    assert("skipped"@[0] != "partial"@[0]);
}

/// The unit a habit's goal is counted in when none is given.
pub fn default_goal_unit() -> (r: String)
    ensures
        r@ == "count"@,
{
    String::from_str("count")
}

/// A habit title as stored: trimmed, and refused when nothing is left.
pub fn clean_title(value: &str) -> (r: Result<String, Error>)
    ensures
        trim_seq(value@).len() == 0 ==> (r matches Err(e) && is_validation(
            e,
            "Habit title is required"@,
        )),
        trim_seq(value@).len() > 0 ==> (r matches Ok(t) && t@ == trim_seq(value@)),
{
    let clean = crate::text::trim(value);
    if clean.unicode_len() == 0 {
        return Err(crate::error::validation_error("Habit title is required"));
    }
    Ok(clean.to_owned())
}

/// Refuses a range of log dates that ends before it starts.
pub fn check_log_range(from: CalendarDate, to: CalendarDate) -> (r: Result<(), Error>)
    ensures
        to.days_from_ce < from.days_from_ce ==> (r matches Err(e) && is_validation(
            e,
            "Habit log end date must be on or after start date"@,
        )),
        to.days_from_ce >= from.days_from_ce ==> r is Ok,
{
    if to.days_from_ce < from.days_from_ce {
        return Err(
            crate::error::validation_error("Habit log end date must be on or after start date"),
        );
    }
    Ok(())
}

/// The last day `chrono::NaiveDate` can hold (31 December 262142), as a day
/// number; the day after it cannot be formed.
pub const LAST_CHRONO_DAY: i32 = 95_745_399;

/// The length of the run of consecutive days that ends at `days[i]`.
pub open spec fn run_at(days: Seq<i32>, i: int) -> int
    decreases i,
{
    if i <= 0 {
        1
    } else if days[i] == days[i - 1] + 1 {
        run_at(days, i - 1) + 1
    } else {
        1
    }
}

/// The longest run of consecutive days among the first `n` of `days`.
pub open spec fn longest_run_upto(days: Seq<i32>, n: int) -> int
    decreases n,
{
    if n <= 0 {
        0
    } else {
        let before = longest_run_upto(days, n - 1);
        let here = run_at(days, n - 1);
        if here > before {
            here
        } else {
            before
        }
    }
}

/// The longest run of days in `days` where each follows the one before it by
/// exactly one day.
pub open spec fn longest_run(days: Seq<i32>) -> int {
    longest_run_upto(days, days.len() as int)
}

/// The day numbers of `dates`.
pub open spec fn day_numbers(dates: Seq<CalendarDate>) -> Seq<i32> {
    dates.map_values(|d: CalendarDate| d.days_from_ce)
}

/// Each day but the last can be followed by another: none of them is the
/// last day chrono can hold.
pub open spec fn days_can_advance(days: Seq<i32>) -> bool {
    forall|i: int| 0 <= i < days.len() - 1 ==> #[trigger] days[i] < LAST_CHRONO_DAY
}

proof fn lemma_run_at_bounds(days: Seq<i32>, i: int)
    ensures
        1 <= run_at(days, i),
        i >= 0 ==> run_at(days, i) <= i + 1,
    decreases i,
{
    if i > 0 {
        lemma_run_at_bounds(days, i - 1);
    }
}

proof fn lemma_longest_upto_bounds(days: Seq<i32>, n: int)
    requires
        n >= 0,
    ensures
        0 <= longest_run_upto(days, n) <= n,
        n > 0 ==> longest_run_upto(days, n) >= 1,
    decreases n,
{
    if n > 0 {
        lemma_longest_upto_bounds(days, n - 1);
        lemma_run_at_bounds(days, n - 1);
    }
}

/// The longest run of consecutive days in `dates`, which come sorted; a day
/// that repeats the one before it starts a new run.
pub fn longest_daily_streak(dates: &[CalendarDate]) -> (r: i64)
    requires
        days_can_advance(day_numbers(dates@)),
        dates@.len() <= i64::MAX,
    ensures
        r == longest_run(day_numbers(dates@)),
{
    let ghost days = day_numbers(dates@);
    let mut best: i64 = 0;
    let mut current: i64 = 0;
    let mut previous: Option<i32> = None;
    let mut i: usize = 0;
    while i < dates.len()
        invariant
            i <= dates@.len(),
            days == day_numbers(dates@),
            days.len() == dates@.len(),
            days_can_advance(days),
            dates@.len() <= i64::MAX,
            best == longest_run_upto(days, i as int),
            i > 0 ==> current == run_at(days, i - 1),
            i > 0 ==> previous == Some(days[i - 1]),
            i == 0 ==> previous is None,
            0 <= best <= i,
            0 <= current <= i,
        decreases dates.len() - i,
    {
        let day = dates[i].days_from_ce;
        proof {
            lemma_run_at_bounds(days, i as int);
            assert(days[i as int] == day);
        }
        let follows = match previous {
            Some(prev) => {
                proof {
                    assert(days[i - 1] < LAST_CHRONO_DAY);
                }
                day == prev + 1
            },
            None => false,
        };
        if follows {
            current = current + 1;
        } else {
            current = 1;
        }
        if current > best {
            best = current;
        }
        previous = Some(day);
        i = i + 1;
    }
    best
}

/// Every run of consecutive days is at least one day long and no longer than
/// the days given; with no days there is no run.
pub proof fn law_streak_bounds(days: Seq<i32>)
    ensures
        0 <= longest_run(days) <= days.len(),
        days.len() > 0 ==> longest_run(days) >= 1,
        days.len() == 0 ==> longest_run(days) == 0,
{
    lemma_longest_upto_bounds(days, days.len() as int);
}

proof fn lemma_consecutive_runs(days: Seq<i32>, i: int)
    requires
        0 <= i < days.len(),
        forall|j: int| 0 < j < days.len() ==> #[trigger] days[j] == days[j - 1] + 1,
    ensures
        run_at(days, i) == i + 1,
    decreases i,
{
    if i > 0 {
        lemma_consecutive_runs(days, i - 1);
    }
}

proof fn lemma_consecutive_longest(days: Seq<i32>, n: int)
    requires
        0 <= n <= days.len(),
        forall|j: int| 0 < j < days.len() ==> #[trigger] days[j] == days[j - 1] + 1,
    ensures
        longest_run_upto(days, n) == n,
    decreases n,
{
    if n > 0 {
        lemma_consecutive_longest(days, n - 1);
        lemma_consecutive_runs(days, n - 1);
    }
}

/// Days that each follow the one before by one day form one streak as long as
/// all of them.
pub proof fn law_consecutive_days_form_one_streak(days: Seq<i32>)
    requires
        forall|j: int| 0 < j < days.len() ==> #[trigger] days[j] == days[j - 1] + 1,
    ensures
        longest_run(days) == days.len(),
{
    lemma_consecutive_longest(days, days.len() as int);
}

} // verus!

verus! {

/// The order of day numbers.
pub open spec fn day_le() -> spec_fn(i32, i32) -> bool {
    |a: i32, b: i32| a <= b
}

/// `days` in ascending order.
pub open spec fn sorted_days(days: Seq<i32>) -> Seq<i32> {
    days.sort_by(day_le())
}

proof fn lemma_day_le_total()
    ensures
        total_ordering(day_le()),
{
}

pub(crate) proof fn lemma_insert_to_multiset<A>(s: Seq<A>, p: int, x: A)
    requires
        0 <= p <= s.len(),
    ensures
        s.insert(p, x).to_multiset() =~= s.to_multiset().insert(x),
{
    broadcast use vstd::multiset::group_multiset_axioms;
    broadcast use vstd::seq_lib::group_to_multiset_ensures;

    let t = s.insert(p, x);
    assert(t.remove(p) =~= s);
    assert(t[p] == x);
    assert(t.contains(x));
    assert(t.to_multiset().count(x) > 0);
}

/// The day numbers in ascending order.
pub fn sort_days(days: &Vec<i32>) -> (r: Vec<i32>)
    ensures
        r@ == sorted_days(days@),
{
    let mut out: Vec<i32> = Vec::new();
    let mut i: usize = 0;
    proof {
        broadcast use vstd::seq_lib::group_to_multiset_ensures;
        assert(days@.take(0) =~= Seq::<i32>::empty());
    }
    while i < days.len()
        invariant
            i <= days@.len(),
            sorted_by(out@, day_le()),
            out@.to_multiset() == days@.take(i as int).to_multiset(),
        decreases days.len() - i,
    {
        let x = days[i];
        let mut p: usize = 0;
        while p < out.len() && out[p] <= x
            invariant
                p <= out@.len(),
                forall|j: int| 0 <= j < p ==> out@[j] <= x,
            decreases out.len() - p,
        {
            p = p + 1;
        }
        let ghost before = out@;
        out.insert(p, x);
        proof {
            broadcast use vstd::seq_lib::group_to_multiset_ensures;
            lemma_insert_to_multiset(before, p as int, x);
            assert(days@.take(i + 1) =~= days@.take(i as int).push(x));
            assert forall|a: int, b: int| 0 <= a < b < out@.len() implies #[trigger] (day_le())(
                out@[a],
                out@[b],
            ) by {
                assert(p < before.len() ==> x < before[p as int]);
                if b < p {
                    assert((day_le())(before[a], before[b]));
                } else if b == p {
                } else if a < p {
                    assert((day_le())(before[a], before[b - 1]));
                } else if a == p {
                    assert((day_le())(before[p as int], before[b - 1]) || p == b - 1);
                } else {
                    assert((day_le())(before[a - 1], before[b - 1]));
                }
            }
        }
        i = i + 1;
    }
    proof {
        assert(days@.take(days@.len() as int) =~= days@);
        lemma_day_le_total();
        days@.lemma_sort_by_ensures(day_le());
        vstd::seq_lib::lemma_sorted_unique(out@, days@.sort_by(day_le()), day_le());
    }
    out
}

} // verus!

verus! {

/// What the habit totals read of one log: whose it is, its day and its status.
#[derive(Debug, Clone)]
pub struct LoggedDay {
    pub habit_id: String,
    pub log_date: CalendarDate,
    pub status: HabitLogStatus,
}

/// The days on which the habit `h` was logged as completed, in log order.
pub open spec fn completed_days(logs: Seq<LoggedDay>, h: Seq<char>) -> Seq<i32>
    decreases logs.len(),
{
    if logs.len() == 0 {
        Seq::empty()
    } else {
        let rest = completed_days(logs.drop_last(), h);
        let l = logs.last();
        if l.habit_id@ == h && l.status == HabitLogStatus::Completed {
            rest.push(l.log_date.days_from_ce)
        } else {
            rest
        }
    }
}

/// How many logs satisfy `keep`.
pub open spec fn count_logs(logs: Seq<LoggedDay>, keep: spec_fn(LoggedDay) -> bool) -> int
    decreases logs.len(),
{
    if logs.len() == 0 {
        0
    } else {
        count_logs(logs.drop_last(), keep) + if keep(logs.last()) {
            1int
        } else {
            0
        }
    }
}

/// A log of a completed day.
pub open spec fn is_completed_log() -> spec_fn(LoggedDay) -> bool {
    |l: LoggedDay| l.status == HabitLogStatus::Completed
}

/// A log of a day completed on `today`.
pub open spec fn is_completed_on(today: CalendarDate) -> spec_fn(LoggedDay) -> bool {
    |l: LoggedDay| l.status == HabitLogStatus::Completed && l.log_date == today
}

/// The longest streak of completed days of any of the habits `habits`, and
/// zero for no habit.
pub open spec fn best_streak_of(habits: Seq<String>, logs: Seq<LoggedDay>) -> int
    decreases habits.len(),
{
    if habits.len() == 0 {
        0
    } else {
        let before = best_streak_of(habits.drop_last(), logs);
        let here = longest_run(sorted_days(completed_days(logs, habits.last()@)));
        if here > before {
            here
        } else {
            before
        }
    }
}

/// The longest streak of completed days of the habit `h` alone.
pub open spec fn habit_streak(logs: Seq<LoggedDay>, h: Seq<char>) -> int {
    longest_run(sorted_days(completed_days(logs, h)))
}

proof fn lemma_habit_streak_nonneg(logs: Seq<LoggedDay>, h: Seq<char>)
    ensures
        habit_streak(logs, h) >= 0,
{
    law_streak_bounds(sorted_days(completed_days(logs, h)));
}

/// The best streak of a summary is the best of the habits' own streaks: no
/// habit has a longer streak, and one of them has exactly that streak (zero
/// when there is no habit).
pub proof fn law_best_streak_is_the_best_habit(habits: Seq<String>, logs: Seq<LoggedDay>)
    ensures
        forall|k: int|
            0 <= k < habits.len() ==> habit_streak(logs, (#[trigger] habits[k])@) <= best_streak_of(
                habits,
                logs,
            ),
        habits.len() == 0 ==> best_streak_of(habits, logs) == 0,
        habits.len() > 0 ==> exists|k: int|
            0 <= k < habits.len() && best_streak_of(habits, logs) == habit_streak(
                logs,
                (#[trigger] habits[k])@,
            ),
    decreases habits.len(),
{
    if habits.len() > 0 {
        let init = habits.drop_last();
        law_best_streak_is_the_best_habit(init, logs);
        let n = habits.len() - 1;
        lemma_habit_streak_nonneg(logs, habits[n]@);
        assert(habit_streak(logs, habits.last()@) == habit_streak(logs, habits[n]@));
        assert forall|k: int| 0 <= k < habits.len() implies habit_streak(logs, (#[trigger] habits[k])@)
            <= best_streak_of(habits, logs) by {
            if k < n {
                assert(init[k] == habits[k]);
            }
        }
        if habit_streak(logs, habits[n]@) > best_streak_of(init, logs) {
            assert(best_streak_of(habits, logs) == habit_streak(logs, habits[n]@));
        } else if n == 0 {
            assert(best_streak_of(init, logs) == 0);
            assert(best_streak_of(habits, logs) == habit_streak(logs, habits[0]@));
        } else {
            let k = choose|k: int|
                0 <= k < init.len() && best_streak_of(init, logs) == habit_streak(logs, (#[trigger] init[k])@);
            assert(init[k] == habits[k]);
            assert(best_streak_of(habits, logs) == habit_streak(logs, habits[k]@));
        }
    }
}

/// The days a habit's streak is reckoned from are exactly the days on which
/// some log of that habit says it was completed.
pub proof fn law_completed_days_are_completed_logs(logs: Seq<LoggedDay>, h: Seq<char>, d: i32)
    ensures
        completed_days(logs, h).contains(d) <==> exists|i: int|
            0 <= i < logs.len() && (#[trigger] logs[i]).habit_id@ == h && logs[i].status
                == HabitLogStatus::Completed && logs[i].log_date.days_from_ce == d,
    decreases logs.len(),
{
    if logs.len() > 0 {
        let init = logs.drop_last();
        law_completed_days_are_completed_logs(init, h, d);
        let rest = completed_days(init, h);
        let l = logs.last();
        if l.habit_id@ == h && l.status == HabitLogStatus::Completed {
            assert(completed_days(logs, h) == rest.push(l.log_date.days_from_ce));
            if completed_days(logs, h).contains(d) {
                let j = choose|j: int| 0 <= j < completed_days(logs, h).len() && completed_days(logs, h)[j] == d;
                if j < rest.len() {
                    assert(rest[j] == d);
                    let i = choose|i: int|
                        0 <= i < init.len() && (#[trigger] init[i]).habit_id@ == h && init[i].status
                            == HabitLogStatus::Completed && init[i].log_date.days_from_ce == d;
                    assert(logs[i] == init[i]);
                } else {
                    assert(logs[logs.len() - 1] == l);
                }
            }
            if exists|i: int|
                0 <= i < logs.len() && (#[trigger] logs[i]).habit_id@ == h && logs[i].status
                    == HabitLogStatus::Completed && logs[i].log_date.days_from_ce == d {
                let i = choose|i: int|
                    0 <= i < logs.len() && (#[trigger] logs[i]).habit_id@ == h && logs[i].status
                        == HabitLogStatus::Completed && logs[i].log_date.days_from_ce == d;
                if i < init.len() {
                    assert(init[i] == logs[i]);
                    let j = choose|j: int| 0 <= j < rest.len() && rest[j] == d;
                    assert(completed_days(logs, h)[j] == d);
                } else {
                    assert(completed_days(logs, h)[rest.len() as int] == d);
                }
            }
        } else {
            if exists|i: int|
                0 <= i < logs.len() && (#[trigger] logs[i]).habit_id@ == h && logs[i].status
                    == HabitLogStatus::Completed && logs[i].log_date.days_from_ce == d {
                let i = choose|i: int|
                    0 <= i < logs.len() && (#[trigger] logs[i]).habit_id@ == h && logs[i].status
                        == HabitLogStatus::Completed && logs[i].log_date.days_from_ce == d;
                assert(i < init.len());
                assert(init[i] == logs[i]);
            }
            if completed_days(logs, h).contains(d) {
                let i = choose|i: int|
                    0 <= i < init.len() && (#[trigger] init[i]).habit_id@ == h && init[i].status
                        == HabitLogStatus::Completed && init[i].log_date.days_from_ce == d;
                assert(logs[i] == init[i]);
            }
        }
    }
}

/// The summary's counts of completed logs are the numbers of logs marked
/// completed, and of those dated `today`.
pub proof fn law_completed_counts_are_filters(logs: Seq<LoggedDay>, today: CalendarDate)
    ensures
        count_logs(logs, is_completed_log()) == logs.filter(
            |l: LoggedDay| l.status == HabitLogStatus::Completed,
        ).len(),
        count_logs(logs, is_completed_on(today)) == logs.filter(
            |l: LoggedDay| l.status == HabitLogStatus::Completed && l.log_date == today,
        ).len(),
        count_logs(logs, is_completed_on(today)) <= count_logs(logs, is_completed_log()),
    decreases logs.len(),
{
    reveal_with_fuel(Seq::filter, 1);
    if logs.len() > 0 {
        law_completed_counts_are_filters(logs.drop_last(), today);
        assert(logs.filter(|l: LoggedDay| l.status == HabitLogStatus::Completed) == {
            let sub = logs.drop_last().filter(|l: LoggedDay| l.status == HabitLogStatus::Completed);
            if logs.last().status == HabitLogStatus::Completed { sub.push(logs.last()) } else { sub }
        });
    }
}

/// The streaks of every habit can be followed day by day (see
/// `longest_daily_streak`).
pub open spec fn streaks_can_advance(habits: Seq<String>, logs: Seq<LoggedDay>) -> bool {
    forall|k: int|
        0 <= k < habits.len() ==> days_can_advance(
            sorted_days(completed_days(logs, (#[trigger] habits[k])@)),
        )
}

/// The whole numbers the habit summary is made of; the completion rate is
/// `completed_count / expected_count`.
#[derive(Debug, Clone, Copy, PartialEq, Eq, Structural)]
pub struct HabitTotals {
    pub active_count: usize,
    pub completed_today: usize,
    pub completed_count: usize,
    pub expected_count: usize,
    pub best_streak: i64,
}

/// How many logs the habits could have over the days from `from` to `to`:
/// one per habit and day, at least one day, saturating at `usize::MAX`.
pub open spec fn expected_logs(habit_count: int, from: CalendarDate, to: CalendarDate) -> int {
    let span = to.days_from_ce - from.days_from_ce;
    let days = if span < 0 {
        1
    } else {
        span + 1
    };
    let n = habit_count * days;
    if n > usize::MAX {
        usize::MAX as int
    } else {
        n
    }
}

/// The expected number of logs is one per habit for a single day, and one
/// more per habit for each further day of the range (while it fits).
pub proof fn law_expected_logs_one_per_habit_and_day(n: int, from: CalendarDate, to: CalendarDate)
    requires
        0 <= n,
        from.days_from_ce <= to.days_from_ce < i32::MAX,
        n * (to.days_from_ce - from.days_from_ce + 2) <= usize::MAX,
    ensures
        expected_logs(n, from, from) == n,
        expected_logs(n, from, CalendarDate { days_from_ce: (to.days_from_ce + 1) as i32 })
            == expected_logs(n, from, to) + n,
{
    let span = to.days_from_ce - from.days_from_ce;
    assert(n * (span + 2) == n * (span + 1) + n) by (nonlinear_arith);
    assert(n * (span + 1) <= n * (span + 2)) by (nonlinear_arith)
        requires
            0 <= n,
            0 <= span,
    ;
    assert(n <= n * (span + 2)) by (nonlinear_arith)
        requires
            0 <= n,
            0 <= span,
    ;
    assert(n * 1 == n) by (nonlinear_arith);
    assert(from.days_from_ce - from.days_from_ce == 0);
}

/// The days on which `h` was completed, in log order.
fn collect_completed_days(logs: &Vec<LoggedDay>, h: &str) -> (r: Vec<i32>)
    ensures
        r@ == completed_days(logs@, h@),
{
    let mut out: Vec<i32> = Vec::new();
    let mut i: usize = 0;
    proof {
        assert(logs@.take(0) =~= Seq::<LoggedDay>::empty());
    }
    while i < logs.len()
        invariant
            i <= logs@.len(),
            out@ == completed_days(logs@.take(i as int), h@),
        decreases logs.len() - i,
    {
        let l = &logs[i];
        proof {
            assert(logs@.take(i + 1).drop_last() =~= logs@.take(i as int));
        }
        if str_eq(l.habit_id.as_str(), h) && l.status == HabitLogStatus::Completed {
            out.push(l.log_date.days_from_ce);
        }
        i = i + 1;
    }
    proof {
        assert(logs@.take(logs@.len() as int) =~= logs@);
    }
    out
}

proof fn lemma_count_logs_bound(logs: Seq<LoggedDay>, keep: spec_fn(LoggedDay) -> bool)
    ensures
        0 <= count_logs(logs, keep) <= logs.len(),
    decreases logs.len(),
{
    if logs.len() > 0 {
        lemma_count_logs_bound(logs.drop_last(), keep);
    }
}

proof fn lemma_best_streak_bound(habits: Seq<String>, logs: Seq<LoggedDay>)
    ensures
        0 <= best_streak_of(habits, logs) <= logs.len(),
    decreases habits.len(),
{
    if habits.len() > 0 {
        lemma_best_streak_bound(habits.drop_last(), logs);
        let days = completed_days(logs, habits.last()@);
        lemma_completed_days_len(logs, habits.last()@);
        lemma_day_le_total();
        days.lemma_sort_by_ensures(day_le());
        lemma_sorted_len(days);
        law_streak_bounds(sorted_days(days));
    }
}

proof fn lemma_completed_days_len(logs: Seq<LoggedDay>, h: Seq<char>)
    ensures
        completed_days(logs, h).len() <= logs.len(),
    decreases logs.len(),
{
    if logs.len() > 0 {
        lemma_completed_days_len(logs.drop_last(), h);
    }
}

proof fn lemma_sorted_len(days: Seq<i32>)
    ensures
        sorted_days(days).len() == days.len(),
{
    broadcast use vstd::seq_lib::group_to_multiset_ensures;

    lemma_day_le_total();
    days.lemma_sort_by_ensures(day_le());
    assert(days.to_multiset().len() == sorted_days(days).to_multiset().len());
}

/// The whole-number totals of the habit summary over the active habits
/// `habits` and the logs `logs` between `from` and `to`: how many habits,
/// how many logs completed on `today` and in all, how many logs there could
/// be, and the longest streak of completed days of any habit.
pub fn summarize_habits(
    habits: &Vec<String>,
    logs: &Vec<LoggedDay>,
    from: CalendarDate,
    to: CalendarDate,
    today: CalendarDate,
) -> (r: HabitTotals)
    requires
        streaks_can_advance(habits@, logs@),
        logs@.len() <= i64::MAX,
    ensures
        r.active_count == habits@.len(),
        r.completed_count == count_logs(logs@, is_completed_log()),
        r.completed_today == count_logs(logs@, is_completed_on(today)),
        r.expected_count == expected_logs(habits@.len() as int, from, to),
        r.best_streak == best_streak_of(habits@, logs@),
{
    let mut completed_count: usize = 0;
    let mut completed_today: usize = 0;
    let mut i: usize = 0;
    proof {
        assert(logs@.take(0) =~= Seq::<LoggedDay>::empty());
    }
    while i < logs.len()
        invariant
            i <= logs@.len(),
            completed_count == count_logs(logs@.take(i as int), is_completed_log()),
            completed_today == count_logs(logs@.take(i as int), is_completed_on(today)),
        decreases logs.len() - i,
    {
        proof {
            assert(logs@.take(i + 1).drop_last() =~= logs@.take(i as int));
            lemma_count_logs_bound(logs@.take(i as int), is_completed_log());
            lemma_count_logs_bound(logs@.take(i as int), is_completed_on(today));
        }
        let l = &logs[i];
        if l.status == HabitLogStatus::Completed {
            completed_count = completed_count + 1;
            if l.log_date == today {
                completed_today = completed_today + 1;
            }
        }
        i = i + 1;
    }
    proof {
        assert(logs@.take(logs@.len() as int) =~= logs@);
    }
    let span: i64 = to.days_from_ce as i64 - from.days_from_ce as i64;
    let days: u64 = if span < 0 {
        1
    } else {
        span as u64 + 1
    };
    let count: u64 = habits.len() as u64;
    let expected: usize = match count.checked_mul(days) {
        Some(n) => if n > usize::MAX as u64 {
            usize::MAX
        } else {
            n as usize
        },
        None => usize::MAX,
    };
    let mut best: i64 = 0;
    let mut k: usize = 0;
    proof {
        assert(habits@.take(0) =~= Seq::<String>::empty());
    }
    while k < habits.len()
        invariant
            k <= habits@.len(),
            streaks_can_advance(habits@, logs@),
            logs@.len() <= i64::MAX,
            best == best_streak_of(habits@.take(k as int), logs@),
        decreases habits.len() - k,
    {
        let h = habits[k].as_str();
        let days = collect_completed_days(logs, h);
        let sorted = sort_days(&days);
        proof {
            assert(days_can_advance(sorted_days(completed_days(logs@, habits@[k as int]@))));
            assert(habits@.take(k + 1).drop_last() =~= habits@.take(k as int));
            lemma_completed_days_len(logs@, h@);
            lemma_sorted_len(days@);
        }
        let mut dates: Vec<CalendarDate> = Vec::new();
        let mut j: usize = 0;
        while j < sorted.len()
            invariant
                j <= sorted@.len(),
                dates@.len() == j,
                forall|t: int| 0 <= t < j ==> #[trigger] dates@[t].days_from_ce == sorted@[t],
            decreases sorted.len() - j,
        {
            dates.push(CalendarDate { days_from_ce: sorted[j] });
            j = j + 1;
        }
        proof {
            assert(day_numbers(dates@) =~= sorted@);
        }
        let here = longest_daily_streak(dates.as_slice());
        if here > best {
            best = here;
        }
        k = k + 1;
    }
    proof {
        assert(habits@.take(habits@.len() as int) =~= habits@);
    }
    HabitTotals {
        active_count: habits.len(),
        completed_today,
        completed_count,
        expected_count: expected,
        best_streak: best,
    }
}

/// The number an item of a stored list of days gives: a JSON integer that
/// fits in a `u32`.
pub open spec fn day_item(v: JsonView) -> Option<u32> {
    match v {
        JsonView::Number(JsonNumber::PosInt(n)) => if n <= u32::MAX {
            Some(n as u32)
        } else {
            None
        },
        JsonView::Number(JsonNumber::NegInt(n)) => if 0 <= n <= u32::MAX {
            Some(n as u32)
        } else {
            None
        },
        _ => None,
    }
}

/// The days a habit's stored `days` document lists: the numbers of an array
/// made only of such integers, and none for any other document or for text
/// that is not JSON.
pub open spec fn stored_days_list(doc: Option<JsonView>) -> Seq<u32> {
    match doc {
        Some(JsonView::Array(items)) => if forall|i: int|
            0 <= i < items.len() ==> #[trigger] day_item(items[i]) is Some {
            Seq::new(items.len(), |i: int| day_item(items[i])->0)
        } else {
            Seq::empty()
        },
        _ => Seq::empty(),
    }
}

/// Reads a habit's stored `days` column.
pub fn stored_habit_days(raw: &str) -> (r: Vec<u32>)
    ensures
        r@ == stored_days_list(parsed_json(raw@)),
{
    match parse_json(raw) {
        Ok(Json::Array(items)) => {
            let ghost view = items_view(items@);
            proof {
                lemma_items_view(items@);
            }
            let mut out: Vec<u32> = Vec::new();
            let mut i: usize = 0;
            while i < items.len()
                invariant
                    i <= items@.len(),
                    view == items_view(items@),
                    parsed_json(raw@) == Some(JsonView::Array(view)),
                    view.len() == items@.len(),
                    forall|k: int| 0 <= k < items@.len() ==> #[trigger] view[k] == items@[k]@,
                    out@.len() == i,
                    forall|k: int| 0 <= k < i ==> #[trigger] day_item(view[k]) == Some(out@[k]),
                decreases items.len() - i,
            {
                let d: Option<u32> = match &items[i] {
                    Json::Number(JsonNumber::PosInt(n)) => if *n <= 0xffff_ffff {
                        Some(*n as u32)
                    } else {
                        None
                    },
                    Json::Number(JsonNumber::NegInt(n)) => if 0 <= *n && *n <= 0xffff_ffff {
                        Some(*n as u32)
                    } else {
                        None
                    },
                    _ => None,
                };
                assert(d == day_item(view[i as int]));
                match d {
                    Some(x) => out.push(x),
                    None => {
                        assert(!(day_item(view[i as int]) is Some));
                        let none: Vec<u32> = Vec::new();
                        assert(none@ =~= Seq::<u32>::empty());
                        return none;
                    },
                }
                i = i + 1;
            }
            assert(out@ =~= Seq::new(view.len(), |k: int| day_item(view[k])->0));
            out
        },
        _ => Vec::new(),
    }
}

} // verus!
