//! Calendar dates as year and day of the year, resolved by chrono.

use chrono::Datelike;
use vstd::prelude::*;

verus! {

/// The earliest year that chrono represents.
pub const MIN_YEAR: i32 = -262143;

/// The latest year that chrono represents.
pub const MAX_YEAR: i32 = 262142;

/// A leap year of the proleptic Gregorian calendar.
pub open spec fn is_leap_year(year: int) -> bool {
    year % 4 == 0 && (year % 100 != 0 || year % 400 == 0)
}

/// The number of days in a year.
pub open spec fn days_in_year(year: int) -> int {
    if is_leap_year(year) {
        366
    } else {
        365
    }
}

/// A year in range and a day of that year, counted from 1.
pub open spec fn is_valid_ordinal_date(year: int, ordinal: int) -> bool {
    &&& MIN_YEAR <= year <= MAX_YEAR
    &&& 1 <= ordinal <= days_in_year(year)
}

/// A calendar date, as its year and the day of that year counted from 1.
#[derive(Clone, Copy, Debug, PartialEq, Eq, Structural)]
pub struct Date {
    pub year: i32,
    pub ordinal: u32,
}

/// Relies on chrono's `NaiveDate::from_yo_opt`: it gives a date exactly when the year lies in
/// chrono's range and the day lies between 1 and the length of that year.
#[verifier::external_body]
fn chrono_has_ordinal_date(year: i32, ordinal: u32) -> (r: bool)
    ensures
        r == is_valid_ordinal_date(year as int, ordinal as int),
{
    chrono::NaiveDate::from_yo_opt(year, ordinal).is_some()
}

/// Relies on chrono's `Utc::now`: today's date in UTC, which chrono represents.
#[verifier::external_body]
fn chrono_utc_today() -> (r: Date)
    ensures
        is_valid_ordinal_date(r.year as int, r.ordinal as int),
{
    let today = chrono::Utc::now().date_naive();
    Date { year: today.year(), ordinal: today.ordinal() }
}

impl Date {
    /// Returns true if this is a date of the calendar.
    pub open spec fn is_valid(self) -> bool {
        is_valid_ordinal_date(self.year as int, self.ordinal as int)
    }

    /// The date on the given day of the given year, if there is one.
    pub fn from_yo(year: i32, ordinal: u32) -> (r: Option<Date>)
        ensures
            r is Some <==> is_valid_ordinal_date(year as int, ordinal as int),
            r matches Some(d) ==> d.year == year && d.ordinal == ordinal,
    {
        if chrono_has_ordinal_date(year, ordinal) {
            Some(Date { year, ordinal })
        } else {
            None
        }
    }

    /// Today's date in UTC.
    pub fn today() -> (r: Date)
        ensures
            r.is_valid(),
    {
        chrono_utc_today()
    }
}

} // verus!
