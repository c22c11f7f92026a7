//! Calendar dates, as the rules for windows and periods read them.

use vstd::prelude::*;
use vstd::string::*;
use chrono::Datelike;
use crate::text::{decimal, padded_decimal_string, zero_padded};

verus! {

/// A day of the proleptic Gregorian calendar with its readings: the civil
/// date, the ISO 8601 week it falls in, and its number in a count of days
/// that grows by one from each day to the next.
#[derive(Clone, Copy, Debug, PartialEq, Eq)]
pub struct CalendarDate {
    pub year: i32,
    pub month: u32,
    pub day: u32,
    /// The year of the ISO week, which differs from `year` around new year.
    pub iso_year: i32,
    /// The ISO week number.
    pub iso_week: u32,
    /// Days counted from 1 January of year 1, which is day 1.
    pub day_number: i32,
}

/// The UTC calendar date of an RFC 3339 date-and-time text, where the text is
/// one.
pub uninterp spec fn rfc3339_utc_date(text: Seq<char>) -> Option<CalendarDate>;

/// Reads an RFC 3339 date-and-time and gives the calendar date of that moment
/// in UTC.
///
/// Trusted: `chrono::DateTime::parse_from_rfc3339` decides whether the text
/// is valid and which moment it names; the date's readings are those of
/// `chrono::NaiveDate` (`year`, `month`, `day`, `iso_week`,
/// `num_days_from_ce`). The contract only names the outcome, as a function of
/// the text.
#[verifier::external_body]
fn parse_rfc3339(text: &str) -> (r: Option<CalendarDate>)
    ensures
        r == rfc3339_utc_date(text@),
{
    let date = chrono::DateTime::parse_from_rfc3339(text).ok()?.naive_utc().date();
    let week = date.iso_week();
    Some(
        CalendarDate {
            year: date.year(),
            month: date.month(),
            day: date.day(),
            iso_year: week.year(),
            iso_week: week.week(),
            day_number: date.num_days_from_ce(),
        },
    )
}

/// The date at position `i` of a list of dates; none beyond its end.
pub open spec fn date_at(dates: Seq<Option<CalendarDate>>, i: int) -> Option<CalendarDate> {
    if 0 <= i < dates.len() {
        dates[i]
    } else {
        None
    }
}

/// The text of a year in a date: four digits for the years 0 to 9999, a sign
/// and at least four digits for any other.
pub open spec fn year_text(year: int) -> Seq<char> {
    if 0 <= year <= 9999 {
        zero_padded(decimal(year as nat), 4)
    } else if year < 0 {
        seq!['-'] + zero_padded(decimal((-year) as nat), 4)
    } else {
        seq!['+'] + zero_padded(decimal(year as nat), 4)
    }
}

/// The ISO 8601 text of a date: year, month and day, joined by hyphens.
pub open spec fn date_text(year: int, month: nat, day: nat) -> Seq<char> {
    year_text(year) + seq!['-'] + zero_padded(decimal(month), 2) + seq!['-'] + zero_padded(
        decimal(day),
        2,
    )
}

impl CalendarDate {
    /// The date of the moment that an RFC 3339 text names, in UTC; nothing
    /// where the text is not RFC 3339.
    pub fn parse(text: &str) -> (r: Option<CalendarDate>)
        ensures
            r == rfc3339_utc_date(text@),
    {
        parse_rfc3339(text)
    }

    /// The number of days from `self` back to `earlier`; negative where
    /// `earlier` is the later of the two.
    pub open spec fn spec_days_since(self, earlier: CalendarDate) -> int {
        self.day_number - earlier.day_number
    }

    /// The number of days from `self` back to `earlier`.
    pub fn days_since(&self, earlier: &CalendarDate) -> (r: i64)
        ensures
            r == self.spec_days_since(*earlier),
    {
        self.day_number as i64 - earlier.day_number as i64
    }

    /// The ISO 8601 text of the date.
    pub open spec fn spec_text(self) -> Seq<char> {
        date_text(self.year as int, self.month as nat, self.day as nat)
    }

    /// The ISO 8601 text of the date, such as `2024-01-31`.
    pub fn text(&self) -> (r: String)
        ensures
            r@ == self.spec_text(),
    {
        proof {
            reveal_strlit("-");
            reveal_strlit("+");
        }
        let mut out = if 0 <= self.year && self.year <= 9999 {
            padded_decimal_string(self.year as u64, 4)
        } else if self.year < 0 {
            let digits = padded_decimal_string((-(self.year as i64)) as u64, 4);
            String::from_str("-").concat(digits.as_str())
        } else {
            let digits = padded_decimal_string(self.year as u64, 4);
            String::from_str("+").concat(digits.as_str())
        };
        out.append("-");
        out.append(padded_decimal_string(self.month as u64, 2).as_str());
        out.append("-");
        out.append(padded_decimal_string(self.day as u64, 2).as_str());
        out
    }
}

} // verus!
