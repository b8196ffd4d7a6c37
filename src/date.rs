//! Calendar dates as day numbers, with chrono doing the calendar work.

use chrono::Datelike;
use vstd::prelude::*;

verus! {

/// Day number of 1900-01-01, the origin of spreadsheet serial dates.
pub const EPOCH_DAY: i64 = 693596;

/// The text format of dates shown to and typed by an operator
/// (`January 01, 2021`).
pub const LONG_DATE_FORMAT: &'static str = "%B %d, %Y";

/// The text format of dates in the import sheets (`2021-01-01`).
pub const ISO_DATE_FORMAT: &'static str = "%Y-%m-%d";

/// A calendar date, held as its day number in the proleptic Gregorian
/// calendar: 0001-01-01 is day 1.
#[derive(Clone, Copy, Debug, PartialEq, Eq, Structural)]
pub struct Date {
    pub day: i64,
}

/// What chrono writes for the date with day number `day` under the format
/// `fmt`, or `None` where the day lies outside chrono's calendar or chrono
/// cannot write the format for a date (an unknown specifier, or a time
/// field such as `%H`).
pub uninterp spec fn date_text(day: int, fmt: Seq<char>) -> Option<Seq<char>>;

/// The day number that chrono reads from `text` under the format `fmt`, or
/// `None` where the text does not parse.
pub uninterp spec fn parsed_day(text: Seq<char>, fmt: Seq<char>) -> Option<int>;

/// Relies on `NaiveDate::from_num_days_from_ce_opt`, `NaiveDate::format` and
/// `DelayedFormat::write_to`: the text depends on the day and the format
/// alone, and a format chrono cannot write gives an error, not a panic.
#[verifier::external_body]
fn format_day(day: i64, fmt: &str) -> (r: Option<String>)
    ensures
        match r {
            Some(t) => date_text(day as int, fmt@) == Some(t@),
            None => date_text(day as int, fmt@).is_none(),
        },
{
    let day = i32::try_from(day).ok()?;
    let date = chrono::NaiveDate::from_num_days_from_ce_opt(day)?;
    let mut text = String::new();
    date.format(fmt).write_to(&mut text).ok()?;
    Some(text)
}

/// Relies on `NaiveDate::parse_from_str` and `Datelike::num_days_from_ce`:
/// the day depends on the text and the format alone.
#[verifier::external_body]
fn parse_day(text: &str, fmt: &str) -> (r: Option<i64>)
    ensures
        match r {
            Some(d) => parsed_day(text@, fmt@) == Some(d as int),
            None => parsed_day(text@, fmt@).is_none(),
        },
{
    let date = chrono::NaiveDate::parse_from_str(text, fmt).ok()?;
    Some(date.num_days_from_ce() as i64)
}

/// The day number of spreadsheet serial `serial`: 1900-01-01 plus
/// `serial - 2` days.
pub open spec fn serial_day(serial: int) -> int {
    EPOCH_DAY + serial - 2
}

/// `n` fits in an `i64`.
pub open spec fn fits_i64(n: int) -> bool {
    i64::MIN <= n <= i64::MAX
}

/// The date `n` days after the date with day number `day`, where its day
/// number fits in an `i64`.
pub open spec fn day_after(day: int, n: int) -> Option<Date> {
    if fits_i64(day + n) {
        Some(Date { day: (day + n) as i64 })
    } else {
        None
    }
}

impl Date {
    /// The date `n` days after this one (before it, for a negative `n`);
    /// `None` where its day number would not fit in an `i64`.
    pub fn add_days(self, n: i64) -> (r: Option<Date>)
        ensures
            r == day_after(self.day as int, n as int),
    {
        match self.day.checked_add(n) {
            Some(day) => Some(Date { day }),
            None => None,
        }
    }

    /// This date written under the chrono format `fmt`.
    pub fn format(&self, fmt: &str) -> (r: Option<String>)
        ensures
            match r {
                Some(t) => date_text(self.day as int, fmt@) == Some(t@),
                None => date_text(self.day as int, fmt@).is_none(),
            },
    {
        format_day(self.day, fmt)
    }

    /// This date as `YYYY-MM-DD`.
    pub fn iso_text(&self) -> (r: Option<String>)
        ensures
            match r {
                Some(t) => date_text(self.day as int, ISO_DATE_FORMAT@) == Some(t@),
                None => date_text(self.day as int, ISO_DATE_FORMAT@).is_none(),
            },
    {
        format_day(self.day, ISO_DATE_FORMAT)
    }

    /// This date as `Month DD, YYYY`, the form an operator reads.
    pub fn long_text(&self) -> (r: Option<String>)
        ensures
            match r {
                Some(t) => date_text(self.day as int, LONG_DATE_FORMAT@) == Some(t@),
                None => date_text(self.day as int, LONG_DATE_FORMAT@).is_none(),
            },
    {
        format_day(self.day, LONG_DATE_FORMAT)
    }
}

/// The date that `text` names under the chrono format `fmt`.
pub fn parse_date(text: &str, fmt: &str) -> (r: Option<Date>)
    ensures
        match parsed_day(text@, fmt@) {
            Some(d) => r == Some(Date { day: d as i64 }),
            None => r.is_none(),
        },
{
    match parse_day(text, fmt) {
        Some(day) => Some(Date { day }),
        None => None,
    }
}

/// The date of the spreadsheet serial number `serial` (already rounded to a
/// whole day): 1900-01-01 plus `serial - 2` days. `None` where its day number
/// would not fit in an `i64`.
pub fn date_from_serial(serial: i64) -> (r: Option<Date>)
    ensures
        r == (if fits_i64(serial_day(serial as int)) {
            Some(Date { day: serial_day(serial as int) as i64 })
        } else {
            None
        }),
{
    let base = Date { day: EPOCH_DAY - 2 };
    base.add_days(serial)
}

} // verus!
