//! Calendar dates as plain year, month and day fields.

use vstd::prelude::*;

use vstd::string::StringExecFns;

use chrono::Datelike;

use crate::textnum::dec_digits;
use crate::textnum::pad2_u64;
use crate::textnum::pad4_u64;
use crate::textnum::zero_pad;

verus! {

/// A calendar date.  The checklist core only ever stores and compares
/// dates; clock and time-zone questions stay outside the library.
#[derive(Debug, Clone, Copy, PartialEq, Eq, Structural)]
pub struct Date {
    pub year: i32,
    pub month: u8,
    pub day: u8,
}

/// Leap years of the proleptic Gregorian calendar.
pub open spec fn spec_is_leap_year(y: int) -> bool {
    (y % 4 == 0 && y % 100 != 0) || y % 400 == 0
}

/// Number of days in the given month of the given year.
pub open spec fn spec_days_in_month(y: int, m: int) -> int {
    if m == 2 {
        if spec_is_leap_year(y) {
            29
        } else {
            28
        }
    } else if m == 4 || m == 6 || m == 9 || m == 11 {
        30
    } else {
        31
    }
}

impl Date {
    /// A meaningful calendar date: month and day are within range.
    pub open spec fn wf(self) -> bool {
        1 <= self.month <= 12 && 1 <= self.day <= spec_days_in_month(
            self.year as int,
            self.month as int,
        )
    }

    /// Builds a date, rejecting out-of-range months and days.
    pub fn from_ymd(year: i32, month: u8, day: u8) -> (r: Option<Date>)
        ensures
            match r {
                Some(d) => d == (Date { year, month, day }) && d.wf(),
                None => !(Date { year, month, day }).wf(),
            },
    {
        if 1 <= month && month <= 12 && 1 <= day && day <= days_in_month(year, month) {
            Some(Date { year, month, day })
        } else {
            None
        }
    }
}

pub fn is_leap_year(y: i32) -> (r: bool)
    ensures
        r == spec_is_leap_year(y as int),
{
    (y % 4 == 0 && y % 100 != 0) || y % 400 == 0
}

pub fn days_in_month(y: i32, m: u8) -> (r: u8)
    ensures
        r == spec_days_in_month(y as int, m as int),
{
    if m == 2 {
        if is_leap_year(y) {
            29
        } else {
            28
        }
    } else if m == 4 || m == 6 || m == 9 || m == 11 {
        30
    } else {
        31
    }
}

/// The `YYYY-MM-DD` rendering of a date with a non-negative year.
pub open spec fn ymd_chars(d: Date) -> Seq<char> {
    zero_pad(dec_digits(d.year as nat), 4) + seq!['-'] + zero_pad(dec_digits(d.month as nat), 2)
        + seq!['-'] + zero_pad(dec_digits(d.day as nat), 2)
}

impl Date {
    /// Renders the date as `YYYY-MM-DD`.
    pub fn format_ymd(self) -> (r: String)
        requires
            0 <= self.year < 10000,
            self.month < 100,
            self.day < 100,
        ensures
            r@ == ymd_chars(self),
    {
        proof {
            reveal_strlit("-");
        }
        let y = pad4_u64(self.year as u64);
        let m = pad2_u64(self.month as u64);
        let d = pad2_u64(self.day as u64);
        let r = y.concat("-").concat(m.as_str()).concat("-").concat(d.as_str());
        proof {
            assert(r@ =~= ymd_chars(self));
        }
        r
    }

    /// The next calendar day.
    pub fn next_day(self) -> (r: Date)
        requires
            self.wf(),
            self.year < i32::MAX,
        ensures
            r.wf(),
            r == if self.day < spec_days_in_month(self.year as int, self.month as int) {
                (Date { day: (self.day + 1) as u8, ..self })
            } else if self.month < 12 {
                (Date { month: (self.month + 1) as u8, day: 1, ..self })
            } else {
                (Date { year: (self.year + 1) as i32, month: 1, day: 1 })
            },
    {
        if self.day < days_in_month(self.year, self.month) {
            Date { day: self.day + 1, ..self }
        } else if self.month < 12 {
            Date { month: self.month + 1, day: 1, ..self }
        } else {
            Date { year: self.year + 1, month: 1, day: 1 }
        }
    }

    /// The previous calendar day.
    pub fn prev_day(self) -> (r: Date)
        requires
            self.wf(),
            self.year > i32::MIN,
        ensures
            r.wf(),
            r == if self.day > 1 {
                (Date { day: (self.day - 1) as u8, ..self })
            } else if self.month > 1 {
                (Date {
                    month: (self.month - 1) as u8,
                    day: spec_days_in_month(self.year as int, self.month - 1) as u8,
                    ..self
                })
            } else {
                (Date { year: (self.year - 1) as i32, month: 12, day: 31 })
            },
    {
        if self.day > 1 {
            Date { day: self.day - 1, ..self }
        } else if self.month > 1 {
            Date { month: self.month - 1, day: days_in_month(self.year, self.month - 1), ..self }
        } else {
            Date { year: self.year - 1, month: 12, day: 31 }
        }
    }
}

/// The result of chrono's `%Y-%m-%d` date parse on a given string: a
/// function of the text alone.
pub uninterp spec fn chrono_ymd_parse(s: Seq<char>) -> Option<Date>;

/// Relies on chrono::NaiveDate::parse_from_str with the `%Y-%m-%d` format:
/// the parse depends on the text alone, and a parsed date is always a real
/// calendar date.
#[verifier::external_body]
pub fn parse_date_ymd(s: &str) -> (r: Option<Date>)
    ensures
        r == chrono_ymd_parse(s@),
        r matches Some(d) ==> d.wf(),
{
    match chrono::NaiveDate::parse_from_str(s, "%Y-%m-%d") {
        Ok(n) => Some(Date { year: n.year(), month: n.month() as u8, day: n.day() as u8 }),
        Err(_) => None,
    }
}

/// Relies on chrono::Local::now and DateTime::date_naive: today's date in
/// the local time zone.  chrono dates always carry an in-range month and
/// day; nothing else can be promised about the clock.
#[verifier::external_body]
pub fn today_date() -> (d: Date)
    ensures
        d.wf(),
{
    let n = chrono::Local::now().date_naive();
    Date { year: n.year(), month: n.month() as u8, day: n.day() as u8 }
}

} // verus!
