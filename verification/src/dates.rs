//! Calendar days, as far as the search filters need them. The calendar
//! itself is that of the `chrono` crate.

use chrono::Datelike;
use vstd::prelude::*;

verus! {

/// A day of the proleptic Gregorian calendar, in plain numbers.
#[derive(Debug, Clone, Copy, PartialEq, Eq, Structural)]
pub struct Ymd {
    pub year: i32,
    pub month: u32,
    pub day: u32,
}

/// The day that `NaiveDate::parse_from_str` reads from a text under the
/// pattern `%Y-%m-%d`, if it reads one.
pub uninterp spec fn day_of_text(text: Seq<char>) -> Option<Ymd>;

/// The text that `NaiveDate::format` writes under the pattern `%-d-%b-%Y`
/// (the day of the month without padding, the English short name of the
/// month, the year) for the day that `NaiveDate::from_ymd_opt` makes of three
/// numbers, if it makes one.
pub uninterp spec fn imap_text_of_day(year: int, month: int, day: int) -> Option<Seq<char>>;

/// The day that lies `days` days after a day, as `NaiveDate::checked_add_days`
/// computes it, if the calendar of `chrono` holds both days.
pub uninterp spec fn day_plus(year: int, month: int, day: int, days: nat) -> Option<Ymd>;

/// The day that lies `days` days before a day, as
/// `NaiveDate::checked_sub_days` computes it, if the calendar of `chrono`
/// holds both days.
pub uninterp spec fn day_minus(year: int, month: int, day: int, days: nat) -> Option<Ymd>;

/// `NaiveDate::parse_from_str(text, "%Y-%m-%d")`, the day handed out as year,
/// month and day of the month.
#[verifier::external_body]
fn chrono_parse_ymd(text: &str) -> (r: Option<Ymd>)
    ensures
        r == day_of_text(text@),
{
    match chrono::NaiveDate::parse_from_str(text, "%Y-%m-%d") {
        Ok(d) => Some(Ymd { year: d.year(), month: d.month(), day: d.day() }),
        Err(_) => None,
    }
}

/// `NaiveDate::format("%-d-%b-%Y")` of the day that `NaiveDate::from_ymd_opt`
/// makes of the three numbers; `None` if they are no day of the calendar.
#[verifier::external_body]
fn chrono_format_imap(date: Ymd) -> (r: Option<String>)
    ensures
        match imap_text_of_day(date.year as int, date.month as int, date.day as int) {
            Some(t) => r is Some && r->Some_0@ == t,
            None => r is None,
        },
{
    chrono::NaiveDate::from_ymd_opt(date.year, date.month, date.day).map(
        |d| d.format("%-d-%b-%Y").to_string(),
    )
}

/// `NaiveDate::checked_add_days` of the day that `NaiveDate::from_ymd_opt`
/// makes of the three numbers.
#[verifier::external_body]
fn chrono_add_days(date: Ymd, days: u16) -> (r: Option<Ymd>)
    ensures
        r == day_plus(date.year as int, date.month as int, date.day as int, days as nat),
{
    chrono::NaiveDate::from_ymd_opt(date.year, date.month, date.day).and_then(
        |d| d.checked_add_days(chrono::Days::new(days.into())),
    ).map(|d| Ymd { year: d.year(), month: d.month(), day: d.day() })
}

/// `NaiveDate::checked_sub_days` of the day that `NaiveDate::from_ymd_opt`
/// makes of the three numbers.
#[verifier::external_body]
fn chrono_sub_days(date: Ymd, days: u16) -> (r: Option<Ymd>)
    ensures
        r == day_minus(date.year as int, date.month as int, date.day as int, days as nat),
{
    chrono::NaiveDate::from_ymd_opt(date.year, date.month, date.day).and_then(
        |d| d.checked_sub_days(chrono::Days::new(days.into())),
    ).map(|d| Ymd { year: d.year(), month: d.month(), day: d.day() })
}

/// `Utc::now().date_naive()`: the day it is now, in UTC. Nothing is stated of
/// it.
#[verifier::external_body]
fn chrono_today() -> Ymd {
    let d = chrono::Utc::now().date_naive();
    Ymd { year: d.year(), month: d.month(), day: d.day() }
}

/// `a` is the same day as `b` or an earlier one.
pub open spec fn day_le(a: Ymd, b: Ymd) -> bool {
    a.year < b.year || (a.year == b.year && (a.month < b.month || (a.month == b.month && a.day
        <= b.day)))
}

impl Ymd {
    /// Whether this day is `other` or an earlier day.
    pub fn le(&self, other: &Ymd) -> (r: bool)
        ensures
            r == day_le(*self, *other),
    {
        self.year < other.year || (self.year == other.year && (self.month < other.month || (
        self.month == other.month && self.day <= other.day)))
    }
}

/// Reads a day written as `YYYY-MM-DD`.
pub fn read_day(text: &str) -> (r: Option<Ymd>)
    ensures
        r == day_of_text(text@),
{
    chrono_parse_ymd(text)
}

/// Writes a day as a search expression wants it, such as `1-Jan-2025`.
/// `None` if the numbers are no day of the calendar.
pub fn imap_date(date: Ymd) -> (r: Option<String>)
    ensures
        match imap_text_of_day(date.year as int, date.month as int, date.day as int) {
            Some(t) => r is Some && r->Some_0@ == t,
            None => r is None,
        },
{
    chrono_format_imap(date)
}

/// The day after `date`, if the calendar holds it.
pub fn day_after(date: Ymd) -> (r: Option<Ymd>)
    ensures
        r == day_plus(date.year as int, date.month as int, date.day as int, 1),
{
    chrono_add_days(date, 1)
}

/// The day `days` days before `date`, if the calendar holds it.
pub fn days_before(date: Ymd, days: u16) -> (r: Option<Ymd>)
    ensures
        r == day_minus(date.year as int, date.month as int, date.day as int, days as nat),
{
    chrono_sub_days(date, days)
}

/// The day it is now, in UTC.
///
/// The day is whatever the clock says, so nothing is stated of it. What is
/// made of a day is stated where the day is taken as an argument.
pub fn today() -> Ymd {
    chrono_today()
}

} // verus!
