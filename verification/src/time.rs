use vstd::prelude::*;

verus! {

/// A UTC instant: whole seconds since the Unix epoch and the nanoseconds past
/// that second, as `chrono::DateTime<Utc>` reports them through `timestamp()`
/// and `timestamp_subsec_nanos()`.
#[derive(Debug, Clone, Copy, PartialEq, Eq, Structural)]
pub struct Timestamp {
    pub secs: i64,
    pub nanos: u32,
}

/// `t` lies well inside the range of instants that `chrono` can represent
/// (about 262 000 years either side of the epoch).
pub open spec fn ts_in_range(t: Timestamp) -> bool {
    -0x2000_0000_0000_0000 <= t.secs <= 0x2000_0000_0000_0000
}

/// The instant `t` in nanoseconds since the epoch.
pub open spec fn ts_nanos(t: Timestamp) -> int {
    t.secs * 1_000_000_000 + t.nanos
}

/// `a` is not later than `b`, comparing seconds first and then nanoseconds.
pub open spec fn ts_le(a: Timestamp, b: Timestamp) -> bool {
    a.secs < b.secs || (a.secs == b.secs && a.nanos <= b.nanos)
}

/// Whole seconds from `start` to `now`, and zero when `now` is not after
/// `start`.
pub open spec fn elapsed_seconds_spec(start: Timestamp, now: Timestamp) -> int {
    let d = ts_nanos(now) - ts_nanos(start);
    if d > 0 {
        d / 1_000_000_000
    } else {
        0
    }
}

impl Timestamp {
    /// Whether `self` is not later than `other`.
    pub fn not_after(&self, other: &Timestamp) -> (r: bool)
        ensures
            r == ts_le(*self, *other),
    {
        self.secs < other.secs || (self.secs == other.secs && self.nanos <= other.nanos)
    }
}

/// Whole seconds a timer has run since it was last started, never negative;
/// zero when it was never started.
pub fn elapsed_since(last_started_at: Option<Timestamp>, now: Timestamp) -> (r: i64)
    requires
        ts_in_range(now),
        last_started_at matches Some(s) ==> ts_in_range(s),
    ensures
        r >= 0,
        r == match last_started_at {
            Some(s) => elapsed_seconds_spec(s, now),
            None => 0,
        },
{
    match last_started_at {
        Some(start) => {
            let d: i128 = (now.secs as i128 - start.secs as i128) * 1_000_000_000i128
                + now.nanos as i128 - start.nanos as i128;
            assert(d == ts_nanos(now) - ts_nanos(start));
            if d > 0 {
                let q = d / 1_000_000_000i128;
                assert(q <= 0x4000_0000_0000_0005) by (nonlinear_arith)
                    requires
                        q == d / 1_000_000_000i128,
                        d <= 0x4000_0000_0000_0000 * 1_000_000_000 + 0xffff_ffff,
                        d > 0,
                ;
                q as i64
            } else {
                0
            }
        },
        None => 0,
    }
}

/// The instant that `chrono` reads from `s` as a `DateTime<Utc>` (its
/// `FromStr`, a relaxed RFC 3339 that also takes a space between date and
/// time), or `None` where it reads none.
pub uninterp spec fn parsed_utc(s: Seq<char>) -> Option<Timestamp>;

/// The instant that `chrono::DateTime::parse_from_rfc3339` reads from `s`,
/// taken to UTC, or `None` where it reads none.
pub uninterp spec fn parsed_rfc3339(s: Seq<char>) -> Option<Timestamp>;

/// The first second `chrono::DateTime<Utc>` can hold: 1 January 262143 BCE.
pub const CHRONO_MIN_SECS: i64 = -8_334_601_228_800;

/// The last second `chrono::DateTime<Utc>` can hold: 31 December 262142.
pub const CHRONO_MAX_SECS: i64 = 8_210_266_876_799;

/// An instant as `chrono` can hold it: inside its range of dates, with fewer
/// than two seconds' worth of nanoseconds, and a second's worth or more only
/// in the last second of a minute (a leap second).
pub open spec fn chrono_instant(t: Timestamp) -> bool {
    &&& CHRONO_MIN_SECS <= t.secs <= CHRONO_MAX_SECS
    &&& t.nanos < 2_000_000_000
    &&& t.nanos >= 1_000_000_000 ==> t.secs % 60 == 59
}

/// An instant as chrono reads it from text: a stored offset may move it a
/// little past the dates chrono can otherwise hold, so only the range the
/// arithmetic here is proved on, and the bound on the sub-second part, are
/// claimed of it.
pub open spec fn parsed_instant(t: Timestamp) -> bool {
    ts_in_range(t) && t.nanos < 2_000_000_000
}

/// Reads a stored instant with `str::parse::<chrono::DateTime<Utc>>`.
///
/// Claimed of chrono: the result depends on the text alone and, where there
/// is one, lies within a day of chrono's range of dates with a sub-second
/// part below two seconds (`parsed_instant`). Which texts it accepts is not
/// stated.
#[verifier::external_body]
pub fn parse_utc(s: &str) -> (r: Option<Timestamp>)
    ensures
        r == parsed_utc(s@),
        r matches Some(t) ==> parsed_instant(t),
{
    match s.parse::<chrono::DateTime<chrono::Utc>>() {
        Ok(d) => Some(Timestamp { secs: d.timestamp(), nanos: d.timestamp_subsec_nanos() }),
        Err(_) => None,
    }
}

/// Reads a stored instant with `chrono::DateTime::parse_from_rfc3339`,
/// converted to UTC.
///
/// Claimed of chrono: as for `parse_utc`, the result depends on the text
/// alone and satisfies `parsed_instant`. Which texts it accepts is not stated.
#[verifier::external_body]
pub fn parse_rfc3339(s: &str) -> (r: Option<Timestamp>)
    ensures
        r == parsed_rfc3339(s@),
        r matches Some(t) ==> parsed_instant(t),
{
    match chrono::DateTime::parse_from_rfc3339(s) {
        Ok(d) => Some(Timestamp { secs: d.timestamp(), nanos: d.timestamp_subsec_nanos() }),
        Err(_) => None,
    }
}

/// The current instant: `chrono::Utc::now()`.
///
/// Claimed of chrono: it is an instant chrono can hold (`chrono_instant`).
/// Which instant it is rests on the system clock and is not stated.
#[verifier::external_body]
pub fn now() -> (r: Timestamp)
    ensures
        chrono_instant(r),
{
    let d = chrono::Utc::now();
    Timestamp { secs: d.timestamp(), nanos: d.timestamp_subsec_nanos() }
}

/// The instant that stands in for one that could not be read: the epoch,
/// which is what `DateTime::<Utc>::default()` gives.
pub open spec fn epoch() -> Timestamp {
    Timestamp { secs: 0, nanos: 0 }
}

/// A stored instant, or the epoch where the text cannot be read.
pub fn parse_utc_or_epoch(s: &str) -> (r: Timestamp)
    ensures
        r == match parsed_utc(s@) {
            Some(t) => t,
            None => epoch(),
        },
        parsed_instant(r),
{
    match parse_utc(s) {
        Some(t) => t,
        None => Timestamp { secs: 0, nanos: 0 },
    }
}

/// The text `chrono` writes for `t` with the format `%Y-%m-%d-%H%M%S`, as
/// file names carry it.
pub uninterp spec fn stamp_text(t: Timestamp) -> Seq<char>;

/// Writes `t` as `%Y-%m-%d-%H%M%S` through `chrono::DateTime::from_timestamp`
/// and `format`.
///
/// Claimed of chrono: `from_timestamp` gives an instant exactly for the
/// seconds and nanoseconds it can hold (`chrono_instant`, as its source
/// checks them), and the text depends on the instant alone. The text itself
/// is not stated.
#[verifier::external_body]
pub fn format_stamp(t: Timestamp) -> (r: Option<String>)
    ensures
        chrono_instant(t) <==> r is Some,
        r matches Some(s) ==> s@ == stamp_text(t),
{
    match chrono::DateTime::from_timestamp(t.secs, t.nanos) {
        Some(d) => Some(d.format("%Y-%m-%d-%H%M%S").to_string()),
        None => None,
    }
}

/// A stored optional instant, read as `parse_utc` reads it.
pub open spec fn opt_parsed_utc(o: Option<String>) -> Option<Timestamp> {
    match o {
        Some(s) => parsed_utc(s@),
        None => None,
    }
}

/// Reads an optional stored instant; text that cannot be read gives `None`.
pub fn parse_utc_opt(o: &Option<String>) -> (r: Option<Timestamp>)
    ensures
        r == opt_parsed_utc(*o),
        r matches Some(t) ==> parsed_instant(t),
{
    match o {
        Some(s) => parse_utc(s.as_str()),
        None => None,
    }
}

/// A stored optional instant, read as `parse_rfc3339` reads it.
pub open spec fn opt_parsed_rfc3339(o: Option<String>) -> Option<Timestamp> {
    match o {
        Some(s) => parsed_rfc3339(s@),
        None => None,
    }
}

/// Reads an optional stored RFC 3339 instant; text that cannot be read gives
/// `None`.
pub fn parse_rfc3339_opt(o: &Option<String>) -> (r: Option<Timestamp>)
    ensures
        r == opt_parsed_rfc3339(*o),
        r matches Some(t) ==> parsed_instant(t),
{
    match o {
        Some(s) => parse_rfc3339(s.as_str()),
        None => None,
    }
}

/// A calendar day, as `chrono::NaiveDate::num_days_from_ce` numbers it: day 1
/// is 0001-01-01 and consecutive days have consecutive numbers.
#[derive(Debug, Clone, Copy, PartialEq, Eq, Structural)]
pub struct CalendarDate {
    pub days_from_ce: i32,
}

/// The day `chrono::NaiveDate::parse_from_str` reads from `s` with the
/// format `%Y-%m-%d`, numbered as `num_days_from_ce` numbers it, or `None`
/// where it reads none.
pub uninterp spec fn parsed_day(s: Seq<char>) -> Option<CalendarDate>;

/// Reads a stored day with `chrono::NaiveDate::parse_from_str(s, "%Y-%m-%d")`
/// and numbers it with `num_days_from_ce`.
///
/// Claimed of chrono: the result depends on the text alone, and a day it
/// reads is one `NaiveDate` can hold, so it is not after the last one
/// (`LAST_CHRONO_DAY`). Which texts it accepts is not stated.
#[verifier::external_body]
pub fn parse_day(s: &str) -> (r: Option<CalendarDate>)
    ensures
        r == parsed_day(s@),
        r matches Some(d) ==> d.days_from_ce <= crate::habit::LAST_CHRONO_DAY,
{
    match chrono::NaiveDate::parse_from_str(s, "%Y-%m-%d") {
        Ok(d) => Some(CalendarDate { days_from_ce: chrono::Datelike::num_days_from_ce(&d) }),
        Err(_) => None,
    }
}

/// A stored day, or `today` where the text cannot be read.
pub fn day_or(s: &str, today: CalendarDate) -> (r: CalendarDate)
    ensures
        r == match parsed_day(s@) {
            Some(d) => d,
            None => today,
        },
{
    match parse_day(s) {
        Some(d) => d,
        None => today,
    }
}

/// The day `chrono::NaiveDate::from_ymd_opt(year, month, day)` forms,
/// numbered as `num_days_from_ce` numbers it, or `None` where it forms none.
pub uninterp spec fn ymd_day(year: i32, month: u32, day: u32) -> Option<CalendarDate>;

/// Numbers the day `year`-`month`-`day` with `chrono::NaiveDate::from_ymd_opt`
/// and `num_days_from_ce`.
///
/// Claimed of chrono: the result depends on the three numbers alone, and a
/// day it forms is not after the last one `NaiveDate` can hold. Which
/// triples form a day is not stated.
#[verifier::external_body]
pub fn calendar_day(year: i32, month: u32, day: u32) -> (r: Option<CalendarDate>)
    ensures
        r == ymd_day(year, month, day),
        r matches Some(d) ==> d.days_from_ce <= crate::habit::LAST_CHRONO_DAY,
{
    match chrono::NaiveDate::from_ymd_opt(year, month, day) {
        Some(d) => Some(CalendarDate { days_from_ce: chrono::Datelike::num_days_from_ce(&d) }),
        None => None,
    }
}

/// Today's date in UTC: `chrono::Utc::now().date_naive()`, numbered with
/// `num_days_from_ce`.
///
/// Claimed of chrono: it is a day `NaiveDate` can hold, so not after the last
/// one. Which day it is rests on the system clock and is not stated.
#[verifier::external_body]
pub fn today() -> (r: CalendarDate)
    ensures
        r.days_from_ce <= crate::habit::LAST_CHRONO_DAY,
{
    CalendarDate { days_from_ce: chrono::Datelike::num_days_from_ce(&chrono::Utc::now().date_naive()) }
}

} // verus!
