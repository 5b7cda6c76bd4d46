//! Calendar arithmetic for the date/time selector: leap years, month
//! lengths, date validity, and the successor of a calendar day.

use vstd::prelude::*;

use crate::digits::{pad2, pad4, push_pad2, push_pad4};

verus! {

/// Smallest year the selector's year field accepts.
pub const YEAR_MIN: u16 = 2000;

/// Largest year the selector's year field accepts.
pub const YEAR_MAX: u16 = 2200;

/// A calendar date in the proleptic Gregorian calendar.
#[derive(Clone, Copy, PartialEq, Eq, Structural, Debug)]
pub struct Date {
    pub year: u16,
    pub month: u8,
    pub day: u8,
}

/// Gregorian leap-year rule.
pub open spec fn spec_is_leap_year(y: int) -> bool {
    (y % 4 == 0 && y % 100 != 0) || y % 400 == 0
}

/// Number of days in the given month, leap-year aware.
pub open spec fn spec_days_in_month(y: int, m: int) -> int {
    if m == 2 {
        if spec_is_leap_year(y) {
            29
        } else {
            28
        }
    } else if m == 4 || m == 6 || m == 9 || m == 11 {
        30
    } else {
        31
    }
}

/// A date is valid when its month exists and its day exists in that month.
pub open spec fn spec_valid_date(d: Date) -> bool {
    &&& 1 <= d.month <= 12
    &&& 1 <= d.day <= spec_days_in_month(d.year as int, d.month as int)
}

pub fn is_leap_year(year: u16) -> (r: bool)
    ensures
        r == spec_is_leap_year(year as int),
{
    (year % 4 == 0 && year % 100 != 0) || year % 400 == 0
}

pub fn days_in_month(year: u16, month: u8) -> (r: u8)
    requires
        1 <= month <= 12,
    ensures
        r == spec_days_in_month(year as int, month as int),
        28 <= r <= 31,
{
    if month == 2 {
        if is_leap_year(year) {
            29
        } else {
            28
        }
    } else if month == 4 || month == 6 || month == 9 || month == 11 {
        30
    } else {
        31
    }
}

impl Date {
    pub open spec fn valid(self) -> bool {
        spec_valid_date(self)
    }

    /// The calendar day after `self`.
    pub fn next_day(self) -> (r: Date)
        requires
            self.valid(),
            self.year < u16::MAX,
        ensures
            r.valid(),
            r == spec_next_day(self),
    {
        let dim = days_in_month(self.year, self.month);
        if self.day < dim {
            Date { year: self.year, month: self.month, day: self.day + 1 }
        } else if self.month < 12 {
            Date { year: self.year, month: self.month + 1, day: 1 }
        } else {
            Date { year: self.year + 1, month: 1, day: 1 }
        }
    }
}

/// Successor of a valid date: the next day of the month, else the first day
/// of the next month, else the first day of the next year.
pub open spec fn spec_next_day(d: Date) -> Date {
    if d.day < spec_days_in_month(d.year as int, d.month as int) {
        Date { year: d.year, month: d.month, day: (d.day + 1) as u8 }
    } else if d.month < 12 {
        Date { year: d.year, month: (d.month + 1) as u8, day: 1 }
    } else {
        Date { year: (d.year + 1) as u16, month: 1, day: 1 }
    }
}

/// A calendar date with a time of day, minute precision: the canonical
/// instant the date/time selector commits.
#[derive(Clone, Copy, PartialEq, Eq, Structural, Debug)]
pub struct DateTime {
    pub date: Date,
    pub hour: u8,
    pub minute: u8,
}

impl DateTime {
    /// The date exists in the calendar, the year has four digits, and the
    /// time of day is in range.
    pub open spec fn valid(self) -> bool {
        &&& self.date.valid()
        &&& self.date.year <= 9999
        &&& self.hour <= 23
        &&& self.minute <= 59
    }
}

/// A date as `YYYY-MM-DD`.
pub open spec fn date_text(d: Date) -> Seq<char> {
    pad4(d.year as int) + seq!['-'] + pad2(d.month as int) + seq!['-'] + pad2(d.day as int)
}

/// A time of day as `HH:MM`.
pub open spec fn hm_text(hour: int, minute: int) -> Seq<char> {
    pad2(hour) + seq![':'] + pad2(minute)
}

/// Appends a date as `YYYY-MM-DD`.
pub fn push_date_text(out: &mut String, d: Date)
    requires
        d.year <= 9999,
        d.month <= 99,
        d.day <= 99,
    ensures
        final(out)@ == old(out)@ + date_text(d),
{
    push_pad4(out, d.year);
    out.append("-");
    push_pad2(out, d.month);
    out.append("-");
    push_pad2(out, d.day);
    proof {
        reveal_strlit("-");
        assert(out@ =~= old(out)@ + date_text(d));
    }
}

/// Appends a time of day as `HH:MM`.
pub fn push_hm_text(out: &mut String, hour: u8, minute: u8)
    requires
        hour <= 99,
        minute <= 99,
    ensures
        final(out)@ == old(out)@ + hm_text(hour as int, minute as int),
{
    push_pad2(out, hour);
    out.append(":");
    push_pad2(out, minute);
    proof {
        reveal_strlit(":");
        assert(out@ =~= old(out)@ + hm_text(hour as int, minute as int));
    }
}

} // verus!
