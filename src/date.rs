//! Calendar dates, as plain year, month and day values.
use vstd::prelude::*;

verus! {

/// Leap years of the proleptic Gregorian calendar.
pub open spec fn is_leap_year(year: int) -> bool {
    (year % 4 == 0 && year % 100 != 0) || year % 400 == 0
}

/// Number of days of `month` (1 to 12) in `year`.
pub open spec fn days_in_month(year: int, month: int) -> int {
    if month == 2 {
        if is_leap_year(year) {
            29
        } else {
            28
        }
    } else if month == 4 || month == 6 || month == 9 || month == 11 {
        30
    } else {
        31
    }
}

/// `year-month-day` names a day of the proleptic Gregorian calendar.
pub open spec fn is_calendar_date(year: int, month: int, day: int) -> bool {
    1 <= month <= 12 && 1 <= day <= days_in_month(year, month)
}

/// The years that chrono's `NaiveDate` can represent.
pub open spec fn in_chrono_year_range(year: int) -> bool {
    -262143 <= year <= 262142
}

/// Relies on chrono's `NaiveDate::from_ymd_opt`: it returns `Some` exactly when
/// the year lies in `NaiveDate`'s range and the month and day name a day of
/// that year in the proleptic Gregorian calendar.
#[verifier::external_body]
fn naive_date_exists(year: i32, month: u32, day: u32) -> (r: bool)
    ensures
        r == (in_chrono_year_range(year as int) && is_calendar_date(
            year as int,
            month as int,
            day as int,
        )),
{
    chrono::NaiveDate::from_ymd_opt(year, month, day).is_some()
}

/// A day of the calendar.
#[derive(Debug, Clone, Copy, PartialEq, Eq, Structural)]
pub struct Date {
    year: i32,
    month: u32,
    day: u32,
}

impl View for Date {
    type V = (int, int, int);

    /// Year, month and day.
    closed spec fn view(&self) -> (int, int, int) {
        (self.year as int, self.month as int, self.day as int)
    }
}

impl Date {
    /// Every `Date` that this module hands out names a real day.
    pub open spec fn wf(&self) -> bool {
        in_chrono_year_range(self@.0) && is_calendar_date(self@.0, self@.1, self@.2)
    }

    /// The date `year-month-day`, or `None` where no such day exists.
    pub fn from_ymd_opt(year: i32, month: u32, day: u32) -> (r: Option<Date>)
        ensures
            r is Some <==> in_chrono_year_range(year as int) && is_calendar_date(
                year as int,
                month as int,
                day as int,
            ),
            r matches Some(d) ==> d@ == (year as int, month as int, day as int) && d.wf(),
    {
        if naive_date_exists(year, month, day) {
            Some(Date { year, month, day })
        } else {
            None
        }
    }

    pub fn year(&self) -> (r: i32)
        ensures
            r as int == self@.0,
    {
        self.year
    }

    pub fn month(&self) -> (r: u32)
        ensures
            r as int == self@.1,
    {
        self.month
    }

    pub fn day(&self) -> (r: u32)
        ensures
            r as int == self@.2,
    {
        self.day
    }
}

} // verus!
