//! The one thing the calendar logic cannot compute: what time it is now.
//! The current local time comes from the system clock through chrono; the
//! selector and the request builder take the resulting date as an ordinary
//! argument, so they are verified for every value the clock may yield.

use chrono::{Datelike, Timelike};
use vstd::prelude::*;

use crate::dates::{spec_days_in_month, Date, DateTime};

verus! {

/// Relies on `chrono::Local::now` and the `Datelike`/`Timelike` accessors:
/// chrono documents that `month()` is 1 to 12, `day()` is 1 to 31 and no
/// later than the month's last day, `hour()` is 0 to 23 and `minute()` 0
/// to 59. Nothing is assumed of the year: the clock decides it.
#[verifier::external_body]
fn clock_now_parts() -> (r: (i32, u32, u32, u32, u32))
    ensures
        1 <= r.1 <= 12,
        1 <= r.2 <= 31,
        r.2 as int <= spec_days_in_month(r.0 as int, r.1 as int),
        r.3 <= 23,
        r.4 <= 59,
{
    let t = chrono::Local::now();
    (t.year(), t.month(), t.day(), t.hour(), t.minute())
}

/// The current local date and time, if the clock's year has four digits
/// (outside that range no committed instant could be rendered).
pub fn current_date_time() -> (r: Option<DateTime>)
    ensures
        r is Some ==> r->Some_0.valid(),
{
    let (y, month, day, hour, minute) = clock_now_parts();
    if y < 0 || y > 9999 {
        return None;
    }
    let date = Date { year: y as u16, month: month as u8, day: day as u8 };
    Some(DateTime { date, hour: hour as u8, minute: minute as u8 })
}

} // verus!
