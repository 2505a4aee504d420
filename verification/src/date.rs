//! Calendar dates as plain year/month/day values, with validity in the
//! proleptic Gregorian calendar and a total order by (year, month, day).

use vstd::prelude::*;
use vstd::string::StrSliceExecFns;

use crate::text::push_char;

verus! {

/// A calendar date. A value is only meaningful when `is_valid` holds;
/// constructors of this crate only hand out valid dates.
#[derive(Clone, Copy, Debug, PartialEq, Eq, Structural)]
pub struct Date {
    pub year: u32,
    pub month: u32,
    pub day: u32,
}

/// Greatest year a `Date` may carry, so that a date always fits the
/// four-digit `YYYY-MM-DD` text form.
pub const MAX_YEAR: u32 = 9999;

/// A leap year in the proleptic Gregorian calendar.
pub open spec fn spec_is_leap_year(year: u32) -> bool {
    year % 4 == 0 && (year % 100 != 0 || year % 400 == 0)
}

/// Number of days of `month` in `year` (months counted from 1).
pub open spec fn spec_days_in_month(year: u32, month: u32) -> u32 {
    if month == 2 {
        if spec_is_leap_year(year) {
            29
        } else {
            28
        }
    } else if month == 4 || month == 6 || month == 9 || month == 11 {
        30
    } else {
        31
    }
}

/// A well-formed calendar date: month and day in range, year small enough
/// for the four-digit text form.
pub open spec fn spec_valid_date(d: Date) -> bool {
    &&& d.year <= MAX_YEAR
    &&& 1 <= d.month <= 12
    &&& 1 <= d.day <= spec_days_in_month(d.year, d.month)
}

/// Order on dates: `a` is on or before `b`.
pub open spec fn spec_date_le(a: Date, b: Date) -> bool {
    if a.year != b.year {
        a.year < b.year
    } else if a.month != b.month {
        a.month < b.month
    } else {
        a.day <= b.day
    }
}

impl Date {
    /// Whether `self` is a well-formed calendar date.
    pub fn is_valid(&self) -> (r: bool)
        ensures
            r == spec_valid_date(*self),
    {
        self.year <= MAX_YEAR && 1 <= self.month && self.month <= 12 && 1 <= self.day
            && self.day <= days_in_month(self.year, self.month)
    }

    /// The date for the given year, month and day, or `None` when the
    /// triple is not a well-formed calendar date.
    pub fn from_ymd_opt(year: u32, month: u32, day: u32) -> (r: Option<Date>)
        ensures
            spec_valid_date(Date { year, month, day }) ==> r == Some(Date { year, month, day }),
            !spec_valid_date(Date { year, month, day }) ==> r is None,
    {
        let d = Date { year, month, day };
        if d.is_valid() {
            Some(d)
        } else {
            None
        }
    }

    /// Whether `self` is on or before `other`.
    pub fn le(&self, other: &Date) -> (r: bool)
        ensures
            r == spec_date_le(*self, *other),
    {
        if self.year != other.year {
            self.year < other.year
        } else if self.month != other.month {
            self.month < other.month
        } else {
            self.day <= other.day
        }
    }
}

/// A decimal digit character.
pub open spec fn spec_is_digit(c: char) -> bool {
    '0' <= c && c <= '9'
}

/// The numeric value of a decimal digit character.
pub open spec fn spec_digit_val(c: char) -> int {
    c as int - 48
}

/// The character for a decimal digit value below ten.
pub open spec fn spec_digit_char(d: int) -> char {
    if d == 0 {
        '0'
    } else if d == 1 {
        '1'
    } else if d == 2 {
        '2'
    } else if d == 3 {
        '3'
    } else if d == 4 {
        '4'
    } else if d == 5 {
        '5'
    } else if d == 6 {
        '6'
    } else if d == 7 {
        '7'
    } else if d == 8 {
        '8'
    } else {
        '9'
    }
}

/// The date written in `s` as `YYYY-MM-DD` with four-digit year and
/// two-digit month and day, when `s` has that shape and names a well-formed
/// calendar date; `None` otherwise.
pub open spec fn spec_parse_date(s: Seq<char>) -> Option<Date> {
    if s.len() == 10 && spec_is_digit(s[0]) && spec_is_digit(s[1]) && spec_is_digit(s[2])
        && spec_is_digit(s[3]) && s[4] == '-' && spec_is_digit(s[5]) && spec_is_digit(s[6]) && s[7]
        == '-' && spec_is_digit(s[8]) && spec_is_digit(s[9]) {
        let date = Date {
            year: (spec_digit_val(s[0]) * 1000 + spec_digit_val(s[1]) * 100 + spec_digit_val(s[2])
                * 10 + spec_digit_val(s[3])) as u32,
            month: (spec_digit_val(s[5]) * 10 + spec_digit_val(s[6])) as u32,
            day: (spec_digit_val(s[8]) * 10 + spec_digit_val(s[9])) as u32,
        };
        if spec_valid_date(date) {
            Some(date)
        } else {
            None
        }
    } else {
        None
    }
}

/// The `YYYY-MM-DD` text of a date, each part zero-padded.
pub open spec fn spec_date_text(d: Date) -> Seq<char> {
    seq![
        spec_digit_char(d.year as int / 1000 % 10),
        spec_digit_char(d.year as int / 100 % 10),
        spec_digit_char(d.year as int / 10 % 10),
        spec_digit_char(d.year as int % 10),
        '-',
        spec_digit_char(d.month as int / 10 % 10),
        spec_digit_char(d.month as int % 10),
        '-',
        spec_digit_char(d.day as int / 10 % 10),
        spec_digit_char(d.day as int % 10),
    ]
}

/// The character for a decimal digit value below ten.
fn digit_char(d: u32) -> (c: char)
    requires
        d < 10,
    ensures
        c == spec_digit_char(d as int),
{
    match d {
        0 => '0',
        1 => '1',
        2 => '2',
        3 => '3',
        4 => '4',
        5 => '5',
        6 => '6',
        7 => '7',
        8 => '8',
        _ => '9',
    }
}

impl Date {
    /// Reads a date from `YYYY-MM-DD` text; `None` when the text does not
    /// have that shape or does not name a well-formed calendar date.
    pub fn parse(s: &str) -> (r: Option<Date>)
        ensures
            r == spec_parse_date(s@),
    {
        if s.unicode_len() != 10 {
            return None;
        }
        let c0 = s.get_char(0);
        let c1 = s.get_char(1);
        let c2 = s.get_char(2);
        let c3 = s.get_char(3);
        let c4 = s.get_char(4);
        let c5 = s.get_char(5);
        let c6 = s.get_char(6);
        let c7 = s.get_char(7);
        let c8 = s.get_char(8);
        let c9 = s.get_char(9);
        if !(is_digit(c0) && is_digit(c1) && is_digit(c2) && is_digit(c3) && c4 == '-' && is_digit(
            c5,
        ) && is_digit(c6) && c7 == '-' && is_digit(c8) && is_digit(c9)) {
            return None;
        }
        let year: u32 = digit_val(c0) * 1000 + digit_val(c1) * 100 + digit_val(c2) * 10
            + digit_val(c3);
        let month: u32 = digit_val(c5) * 10 + digit_val(c6);
        let day: u32 = digit_val(c8) * 10 + digit_val(c9);
        let date = Date { year, month, day };
        if date.is_valid() {
            Some(date)
        } else {
            None
        }
    }

    /// The `YYYY-MM-DD` text of this date, each part zero-padded.
    pub fn to_text(&self) -> (r: String)
        ensures
            r@ == spec_date_text(*self),
    {
        let mut out = String::new();
        push_char(&mut out, digit_char(self.year / 1000 % 10));
        push_char(&mut out, digit_char(self.year / 100 % 10));
        push_char(&mut out, digit_char(self.year / 10 % 10));
        push_char(&mut out, digit_char(self.year % 10));
        push_char(&mut out, '-');
        push_char(&mut out, digit_char(self.month / 10 % 10));
        push_char(&mut out, digit_char(self.month % 10));
        push_char(&mut out, '-');
        push_char(&mut out, digit_char(self.day / 10 % 10));
        push_char(&mut out, digit_char(self.day % 10));
        proof {
            assert(out@ =~= spec_date_text(*self));
        }
        out
    }
}

/// Whether `c` is a decimal digit character.
fn is_digit(c: char) -> (r: bool)
    ensures
        r == spec_is_digit(c),
{
    '0' <= c && c <= '9'
}

/// The numeric value of a decimal digit character.
fn digit_val(c: char) -> (r: u32)
    requires
        spec_is_digit(c),
    ensures
        r as int == spec_digit_val(c),
        r < 10,
{
    (c as u32) - 48
}

/// Number of days of `month` in `year` (months counted from 1).
pub fn days_in_month(year: u32, month: u32) -> (r: u32)
    ensures
        r == spec_days_in_month(year, month),
{
    if month == 2 {
        if year % 4 == 0 && (year % 100 != 0 || year % 400 == 0) {
            29
        } else {
            28
        }
    } else if month == 4 || month == 6 || month == 9 || month == 11 {
        30
    } else {
        31
    }
}

} // verus!
