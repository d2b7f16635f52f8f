//! A moment in UTC, held as the calendar fields that the timestamp's text
//! spells: year, month, day, hour, minute, second and millisecond.
//!
//! Whether a day exists in the calendar is asked of the `chrono` crate.

use vstd::prelude::*;

verus! {

/// Whether `year` has a 29th of February in the proleptic Gregorian
/// calendar.
pub open spec fn is_leap_year(year: int) -> bool {
    year % 4 == 0 && (year % 100 != 0 || year % 400 == 0)
}

/// The number of days of `month` in `year`.
pub open spec fn days_in_month(year: int, month: int) -> int {
    if month == 2 {
        if is_leap_year(year) {
            29
        } else {
            28
        }
    } else if month == 4 || month == 6 || month == 9 || month == 11 {
        30
    } else {
        31
    }
}

/// Whether the day exists in the proleptic Gregorian calendar.
pub open spec fn is_calendar_date(year: int, month: int, day: int) -> bool {
    1 <= month <= 12 && 1 <= day <= days_in_month(year, month)
}

/// The fields of a moment, as plain numbers.
pub struct CivilTime {
    pub year: int,
    pub month: int,
    pub day: int,
    pub hour: int,
    pub minute: int,
    pub second: int,
    pub millisecond: int,
}

impl CivilTime {
    /// A day that exists, a time of day that exists on it, and a year of four
    /// digits. The second may be 60, the leap second.
    pub open spec fn wf(self) -> bool {
        &&& 0 <= self.year <= 9999
        &&& is_calendar_date(self.year, self.month, self.day)
        &&& 0 <= self.hour < 24
        &&& 0 <= self.minute < 60
        &&& 0 <= self.second <= 60
        &&& 0 <= self.millisecond < 1000
    }
}

/// A moment in UTC with millisecond resolution.
#[derive(Clone, Copy, Debug, PartialEq, Eq)]
pub struct UtcDateTime {
    year: u16,
    month: u8,
    day: u8,
    hour: u8,
    minute: u8,
    second: u8,
    millisecond: u16,
}

impl View for UtcDateTime {
    type V = CivilTime;

    closed spec fn view(&self) -> CivilTime {
        CivilTime {
            year: self.year as int,
            month: self.month as int,
            day: self.day as int,
            hour: self.hour as int,
            minute: self.minute as int,
            second: self.second as int,
            millisecond: self.millisecond as int,
        }
    }
}

/// `chrono`'s `NaiveDate::from_ymd_opt`: it has a date for exactly the days
/// that exist in the proleptic Gregorian calendar.
#[verifier::external_body]
fn date_exists(year: u16, month: u8, day: u8) -> (exists: bool)
    ensures
        exists == is_calendar_date(year as int, month as int, day as int),
{
    chrono::NaiveDate::from_ymd_opt(i32::from(year), u32::from(month), u32::from(day)).is_some()
}

impl UtcDateTime {
    /// What holds of every moment: it is well formed.
    #[verifier::type_invariant]
    pub open spec fn valid(self) -> bool {
        self@.wf()
    }

    /// The moment with these fields, where there is one.
    pub fn new(
        year: u16,
        month: u8,
        day: u8,
        hour: u8,
        minute: u8,
        second: u8,
        millisecond: u16,
    ) -> (moment: Option<UtcDateTime>)
        ensures
            ({
                let fields = CivilTime {
                    year: year as int,
                    month: month as int,
                    day: day as int,
                    hour: hour as int,
                    minute: minute as int,
                    second: second as int,
                    millisecond: millisecond as int,
                };
                match moment {
                    Some(m) => fields.wf() && m@ == fields,
                    None => !fields.wf(),
                }
            }),
    {
        if year > 9999 || hour >= 24 || minute >= 60 || second > 60 || millisecond >= 1000 {
            return None;
        }
        if !date_exists(year, month, day) {
            return None;
        }
        Some(UtcDateTime { year, month, day, hour, minute, second, millisecond })
    }

    /// The year, from 0 to 9999.
    pub fn year(&self) -> (year: u16)
        ensures
            year == self@.year,
    {
        self.year
    }

    /// The month, from 1 to 12.
    pub fn month(&self) -> (month: u8)
        ensures
            month == self@.month,
    {
        self.month
    }

    /// The day of the month, from 1.
    pub fn day(&self) -> (day: u8)
        ensures
            day == self@.day,
    {
        self.day
    }

    /// The hour, from 0 to 23.
    pub fn hour(&self) -> (hour: u8)
        ensures
            hour == self@.hour,
    {
        self.hour
    }

    /// The minute, from 0 to 59.
    pub fn minute(&self) -> (minute: u8)
        ensures
            minute == self@.minute,
    {
        self.minute
    }

    /// The second, from 0 to 60.
    pub fn second(&self) -> (second: u8)
        ensures
            second == self@.second,
    {
        self.second
    }

    /// The millisecond, from 0 to 999.
    pub fn millisecond(&self) -> (millisecond: u16)
        ensures
            millisecond == self@.millisecond,
    {
        self.millisecond
    }
}

} // verus!
