//! Calendar dates and instants, computed by `chrono`.
//!
//! A [`Date`] is a day of the proleptic Gregorian calendar, held as its day
//! number counted from 0001-01-01 (day 1), which is `chrono`'s
//! `num_days_from_ce`.  Dates are ordered by that number.
use vstd::prelude::*;

verus! {

/// Day number of `chrono::NaiveDate::MIN` (-262143-01-01).
pub const MIN_DAY: i32 = -95746129i32;

/// Day number of `chrono::NaiveDate::MAX` (262142-12-31).
pub const MAX_DAY: i32 = 95745399i32;

/// A calendar date, as its day number from the common era.
#[derive(Clone, Copy, Debug, PartialEq, Eq, Structural)]
pub struct Date {
    pub days: i32,
}

/// An instant, as seconds and nanoseconds since the Unix epoch (UTC).
#[derive(Clone, Copy, Debug, PartialEq, Eq, Structural)]
pub struct Timestamp {
    pub secs: i64,
    pub nanos: u32,
}

/// The first and last years `chrono::NaiveDate` can hold.
pub const MIN_YEAR: i32 = -262143i32;
pub const MAX_YEAR: i32 = 262142i32;

/// A leap year of the Gregorian calendar.
pub open spec fn is_leap_year(y: int) -> bool {
    y % 4 == 0 && (y % 100 != 0 || y % 400 == 0)
}

/// The number of days in month `m` of year `y`.
pub open spec fn days_in_month(y: int, m: int) -> int {
    if m == 2 {
        if is_leap_year(y) { 29 } else { 28 }
    } else if m == 4 || m == 6 || m == 9 || m == 11 {
        30
    } else {
        31
    }
}

/// The days of year `y` before the first of month `m`.
pub open spec fn days_before_month(y: int, m: int) -> int {
    let common: int = if m <= 1 { 0 } else if m == 2 { 31 } else if m == 3 { 59 } else if m == 4 { 90 }
        else if m == 5 { 120 } else if m == 6 { 151 } else if m == 7 { 181 } else if m == 8 { 212 }
        else if m == 9 { 243 } else if m == 10 { 273 } else if m == 11 { 304 } else { 334 };
    if m > 2 && is_leap_year(y) { common + 1 } else { common }
}

/// A date that exists and that `chrono` can represent.
pub open spec fn valid_ymd(year: int, month: int, day: int) -> bool {
    &&& MIN_YEAR <= year <= MAX_YEAR
    &&& 1 <= month <= 12
    &&& 1 <= day <= days_in_month(year, month)
}

/// The day number of `year-month-day` in the proleptic Gregorian calendar,
/// 0001-01-01 being day 1 (division rounds down, so years before 1 count
/// backwards).
pub open spec fn ymd_day_number(year: int, month: int, day: int) -> int {
    let q = year - 1;
    365 * q + q / 4 - q / 100 + q / 400 + days_before_month(year, month) + day
}

/// The day number of the date `year-month-day`, or `None` when there is no
/// such date.
pub open spec fn calendar_day_number(year: int, month: int, day: int) -> Option<int> {
    if valid_ymd(year, month, day) {
        Some(ymd_day_number(year, month, day))
    } else {
        None
    }
}

/// The day number of `year-month-day`.
///
/// Trusted: calls `chrono::NaiveDate::from_ymd_opt` and
/// `Datelike::num_days_from_ce`.  As `chrono` documents, `from_ymd_opt`
/// gives `None` exactly for a month or day that does not exist and for a
/// year outside its range, and `num_days_from_ce` counts days in the
/// proleptic Gregorian calendar from 0001-01-01 as day 1
/// ([`calendar_day_number`]); those numbers lie within `chrono`'s range.
#[verifier::external_body]
fn day_number_of(year: i32, month: u32, day: u32) -> (r: Option<i32>)
    ensures
        match r {
            Some(n) => calendar_day_number(year as int, month as int, day as int) == Some(n as int) && MIN_DAY <= n <= MAX_DAY,
            None => calendar_day_number(year as int, month as int, day as int) is None,
        },
{
    match chrono::NaiveDate::from_ymd_opt(year, month, day) {
        Some(d) => Some(chrono::Datelike::num_days_from_ce(&d)),
        None => None,
    }
}

impl Date {
    /// A day that `chrono::NaiveDate` can represent.
    pub open spec fn wf(self) -> bool {
        MIN_DAY <= self.days <= MAX_DAY
    }

    /// The date `year-month-day`, if it exists.
    pub fn from_ymd(year: i32, month: u32, day: u32) -> (r: Option<Date>)
        ensures
            match r {
                Some(d) => calendar_day_number(year as int, month as int, day as int) == Some(d.days as int) && d.wf(),
                None => calendar_day_number(year as int, month as int, day as int) is None,
            },
    {
        match day_number_of(year, month, day) {
            Some(n) => Some(Date { days: n }),
            None => None,
        }
    }

    /// The date `n` days after this one (before, for negative `n`), if
    /// `chrono` can represent it: its day number moves by exactly `n`.
    pub fn checked_add_days(self, n: i64) -> (r: Option<Date>)
        ensures
            r == (if MIN_DAY <= self.days + n <= MAX_DAY {
                Some(Date { days: (self.days + n) as i32 })
            } else {
                None
            }),
    {
        let target: i128 = self.days as i128 + n as i128;
        if MIN_DAY as i128 <= target && target <= MAX_DAY as i128 {
            Some(Date { days: target as i32 })
        } else {
            None
        }
    }

    /// Is this date strictly before `other`?
    pub fn before(&self, other: &Date) -> (r: bool)
        ensures
            r == (self.days < other.days),
    {
        self.days < other.days
    }
}

/// Today's date in the local time zone.
///
/// Trusted: calls `chrono::Local::now().date_naive()`; the result depends on
/// the clock and the time zone, so only its range is stated.
#[verifier::external_body]
pub(crate) fn today() -> (r: Date)
    ensures
        r.wf(),
{
    Date { days: chrono::Datelike::num_days_from_ce(&chrono::Local::now().date_naive()) }
}

/// The current instant.
///
/// Trusted: calls `chrono::Utc::now()`; the result depends on the clock, so
/// only the range of the nanoseconds is stated.
#[verifier::external_body]
pub(crate) fn now_utc() -> (r: Timestamp)
    ensures
        r.nanos < 2000000000,
{
    let t = chrono::Utc::now();
    Timestamp { secs: t.timestamp(), nanos: t.timestamp_subsec_nanos() }
}

/// The day number `chrono` reads from `text` in the format `%Y-%m-%d`, or
/// `None` when `NaiveDate::parse_from_str` rejects it.
pub uninterp spec fn ymd_parse(text: Seq<char>) -> Option<int>;

/// The day number written as `YYYY-MM-DD` in `text`.
///
/// Trusted: calls `chrono::NaiveDate::parse_from_str` with `%Y-%m-%d`; the
/// result is named by [`ymd_parse`] and lies in `chrono`'s range.
#[verifier::external_body]
fn parsed_day_number(text: &str) -> (r: Option<i32>)
    ensures
        match r {
            Some(n) => ymd_parse(text@) == Some(n as int) && MIN_DAY <= n <= MAX_DAY,
            None => ymd_parse(text@) is None,
        },
{
    match chrono::NaiveDate::parse_from_str(text, "%Y-%m-%d") {
        Ok(d) => Some(chrono::Datelike::num_days_from_ce(&d)),
        Err(_) => None,
    }
}

/// Reads a `YYYY-MM-DD` date.
pub fn parse_ymd(text: &str) -> (r: Option<Date>)
    ensures
        match r {
            Some(d) => ymd_parse(text@) == Some(d.days as int) && d.wf(),
            None => ymd_parse(text@) is None,
        },
{
    match parsed_day_number(text) {
        Some(n) => Some(Date { days: n }),
        None => None,
    }
}

} // verus!
