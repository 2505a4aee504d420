//! The current calendar date, read from the system clock through chrono and
//! clamped into the representable range.

use vstd::prelude::*;

use crate::date::{Date, MAX_YEAR};
use crate::date::spec_valid_date;

verus! {

/// Relies on chrono: `Local::now().date_naive()` is today's calendar date in
/// the local time zone, and `Datelike::month` and `Datelike::day` on it
/// return the 1-based month (1 to 12) and day of month (1 to 31). The year
/// is returned as chrono hands it out, unbounded.
#[verifier::external_body]
fn now_year_month_day() -> (r: (i32, u32, u32))
    ensures
        1 <= r.1 <= 12,
        1 <= r.2 <= 31,
{
    let d = chrono::Local::now().date_naive();
    (chrono::Datelike::year(&d), chrono::Datelike::month(&d), chrono::Datelike::day(&d))
}

/// Today's date according to the system clock, always a well-formed `Date`.
/// A clock outside the representable years (before 1 or after 9999) is
/// clamped to the nearest representable date.
pub fn today() -> (r: Date)
    ensures
        spec_valid_date(r),
{
    let (y, m, d) = now_year_month_day();
    if y < 1 {
        Date { year: 1, month: 1, day: 1 }
    } else if y > MAX_YEAR as i32 {
        Date { year: MAX_YEAR, month: 12, day: 31 }
    } else {
        match Date::from_ymd_opt(y as u32, m, d) {
            Some(date) => date,
            None => Date { year: y as u32, month: 1, day: 1 },
        }
    }
}

} // verus!
