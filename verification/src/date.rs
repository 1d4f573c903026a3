//! Calendar dates, computed by the `chrono` crate.
//!
//! Nothing here is proved of `chrono`: the contracts below state what its
//! documentation says of the calls that the calendar makes.

use ansi_term::Style;
use chrono::{Datelike, NaiveDate};
use vstd::prelude::*;

verus! {

/// A day of the calendar.
#[derive(Debug, Clone, Copy, PartialEq, Eq, Structural)]
pub struct Date {
    pub year: i32,
    pub month: u32,
    pub day: u32,
}

/// The first year that `chrono` has dates of.
pub const MIN_YEAR: i32 = -262143;

/// The last year that `chrono` has dates of.
pub const MAX_YEAR: i32 = 262142;

/// `year` is a leap year of the Gregorian calendar.
pub open spec fn is_leap_year(year: int) -> bool {
    year % 4 == 0 && (year % 100 != 0 || year % 400 == 0)
}

/// How many days the month `month` of `year` has.
pub open spec fn days_in_month(year: int, month: int) -> int {
    if month == 2 {
        if is_leap_year(year) {
            29
        } else {
            28
        }
    } else if month == 4 || month == 6 || month == 9 || month == 11 {
        30
    } else {
        31
    }
}

/// There is such a day, and `chrono` has it.
pub open spec fn is_date(year: int, month: int, day: int) -> bool {
    &&& MIN_YEAR <= year <= MAX_YEAR
    &&& 1 <= month <= 12
    &&& 1 <= day <= days_in_month(year, month)
}

/// The day before the day `date`.
pub open spec fn day_before(date: Date) -> Date {
    if date.day > 1 {
        Date { year: date.year, month: date.month, day: (date.day - 1) as u32 }
    } else if date.month > 1 {
        Date {
            year: date.year,
            month: (date.month - 1) as u32,
            day: days_in_month(date.year as int, date.month - 1) as u32,
        }
    } else {
        Date { year: (date.year - 1) as i32, month: 12, day: 31 }
    }
}

/// The day before the day `date`, where both are days that `chrono` has.
pub open spec fn date_before(date: Date) -> Option<Date> {
    let before = day_before(date);
    if is_date(date.year as int, date.month as int, date.day as int) && is_date(
        before.year as int,
        before.month as int,
        before.day as int,
    ) {
        Some(before)
    } else {
        None
    }
}

/// The day of the week of a date, counted from Sunday, which is one.
pub uninterp spec fn weekday_from_sunday(year: i32, month: u32, day: u32) -> u32;

/// What is known of a day of the week: it is one of seven.
pub open spec fn is_weekday_number(number: u32) -> bool {
    1 <= number <= 7
}

/// Asks `NaiveDate::from_ymd_opt` whether there is such a day. Trusted:
/// there is one for a year that `chrono` has, a month of the year and a
/// day of that month.
#[verifier::external_body]
pub(crate) fn date_exists(year: i32, month: u32, day: u32) -> (exists: bool)
    ensures
        exists == is_date(year as int, month as int, day as int),
{
    NaiveDate::from_ymd_opt(year, month, day).is_some()
}

/// The day before a day, by `NaiveDate::pred_opt`. Trusted: the result
/// is the day before in the calendar, and there is none where the day is
/// no date or its predecessor is none that `chrono` has.
#[verifier::external_body]
pub(crate) fn previous_day(date: Date) -> (previous: Option<Date>)
    ensures
        previous == date_before(date),
{
    let day = NaiveDate::from_ymd_opt(date.year, date.month, date.day)?.pred_opt()?;
    Some(Date { year: day.year(), month: day.month(), day: day.day() })
}

/// The day of the week of a day, by `Datelike::weekday` and
/// `Weekday::number_from_sunday`. Trusted: there is a result for every
/// date, it is the value that [`weekday_from_sunday`] names, and it is a
/// number from one to seven.
#[verifier::external_body]
pub(crate) fn weekday_number(year: i32, month: u32, day: u32) -> (number: Option<u32>)
    ensures
        number is Some == is_date(year as int, month as int, day as int),
        number matches Some(n) ==> n == weekday_from_sunday(year, month, day)
            && is_weekday_number(n),
{
    let date = NaiveDate::from_ymd_opt(year, month, day)?;
    Some(date.weekday().number_from_sunday())
}

/// `text` between the codes that switch reverse video on and all styles
/// off.
pub open spec fn reversed(text: Seq<char>) -> Seq<char> {
    "\u{1b}[7m"@ + text + "\u{1b}[0m"@
}

/// Paints `text` in reverse video with `Style::paint` of `ansi_term`.
/// Trusted: the result is the text between the two codes.
#[verifier::external_body]
pub(crate) fn paint_reversed(text: &str) -> (painted: String)
    ensures
        painted@ == reversed(text@),
{
    Style::new().reverse().paint(text).to_string()
}

} // verus!
