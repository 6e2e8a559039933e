//! Calendar dates as plain year/month/day values.
//!
//! Reports filter transactions by date, so the date a transaction carries is
//! held here as three integers with a well-formedness predicate, and the
//! chronological order is the lexicographic order on (year, month, day).
//! Reading the calendar text form `YYYY-MM-DD`, and asking for the current
//! date, go through chrono behind trusted wrappers.

use vstd::prelude::*;

use chrono::Datelike;

verus! {

/// A proleptic Gregorian calendar date.
#[derive(Clone, Copy, Debug, PartialEq, Eq, Structural)]
pub struct Date {
    pub year: i32,
    pub month: u32,
    pub day: u32,
}

pub open spec fn spec_is_leap_year(y: int) -> bool {
    y % 4 == 0 && (y % 100 != 0 || y % 400 == 0)
}

pub open spec fn spec_days_in_month(y: int, m: int) -> int {
    if m == 2 {
        if spec_is_leap_year(y) {
            29
        } else {
            28
        }
    } else if m == 4 || m == 6 || m == 9 || m == 11 {
        30
    } else {
        31
    }
}

pub fn is_leap_year(year: i32) -> (b: bool)
    ensures
        b == spec_is_leap_year(year as int),
{
    year % 4 == 0 && (year % 100 != 0 || year % 400 == 0)
}

pub fn days_in_month(year: i32, month: u32) -> (n: u32)
    ensures
        n == spec_days_in_month(year as int, month as int),
{
    if month == 2 {
        if is_leap_year(year) {
            29
        } else {
            28
        }
    } else if month == 4 || month == 6 || month == 9 || month == 11 {
        30
    } else {
        31
    }
}

impl Date {
    /// A real calendar day: the month exists and the day exists in that
    /// month of that year.
    pub open spec fn valid(self) -> bool {
        &&& 1 <= self.month <= 12
        &&& 1 <= self.day <= spec_days_in_month(self.year as int, self.month as int)
    }

    /// Chronological order: lexicographic on (year, month, day).
    pub open spec fn le(self, other: Date) -> bool {
        if self.year != other.year {
            self.year < other.year
        } else if self.month != other.month {
            self.month < other.month
        } else {
            self.day <= other.day
        }
    }

    /// Builds a date, or nothing when the parts name no real calendar day.
    pub fn new(year: i32, month: u32, day: u32) -> (r: Option<Date>)
        ensures
            r is Some <==> (Date { year, month, day }).valid(),
            r matches Some(d) ==> d == (Date { year, month, day }),
    {
        if 1 <= month && month <= 12 && 1 <= day && day <= days_in_month(year, month) {
            Some(Date { year, month, day })
        } else {
            None
        }
    }

    pub fn lte(&self, other: &Date) -> (b: bool)
        ensures
            b == self.le(*other),
    {
        if self.year != other.year {
            self.year < other.year
        } else if self.month != other.month {
            self.month < other.month
        } else {
            self.day <= other.day
        }
    }
}

/// What `chrono::NaiveDate::parse_from_str` reads out of a text with the
/// calendar format `%Y-%m-%d`: the (year, month, day) fields, or nothing
/// when the text does not parse. The result depends on the characters alone.
pub uninterp spec fn parse_ymd(s: Seq<char>) -> Option<(i32, u32, u32)>;

/// The date carried by the fields that `parse_ymd` reads out of a text.
pub open spec fn spec_parse_date(s: Seq<char>) -> Option<Date> {
    match parse_ymd(s) {
        Some((y, m, d)) => Some(Date { year: y, month: m, day: d }),
        None => None,
    }
}

/// Relies on `chrono::NaiveDate::parse_from_str` with the format `%Y-%m-%d`,
/// and on the `Datelike` accessors `year`, `month` and `day`: whether the
/// text parses, and the fields read out of it, depend on the characters
/// alone, and a `chrono::NaiveDate` is always a real proleptic Gregorian
/// calendar date.
#[verifier::external_body]
pub fn parse_date(s: &str) -> (r: Option<Date>)
    ensures
        r is Some <==> parse_ymd(s@) is Some,
        r == spec_parse_date(s@),
        r matches Some(d) ==> d.valid(),
{
    match chrono::NaiveDate::parse_from_str(s, "%Y-%m-%d") {
        Ok(d) => Some(Date { year: d.year(), month: d.month(), day: d.day() }),
        Err(_) => None,
    }
}

/// Relies on `chrono::Utc::now` and `DateTime::date_naive`: the current UTC
/// calendar date. The result depends on the clock, so nothing is assumed of
/// it beyond being a real calendar date.
#[verifier::external_body]
pub fn today() -> (r: Date)
    ensures
        r.valid(),
{
    let now = chrono::Utc::now().date_naive();
    Date { year: now.year(), month: now.month(), day: now.day() }
}

} // verus!
