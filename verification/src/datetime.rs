//! Calendar dates and times of day as plain values, with validity rules and
//! conversion to milliseconds since the Unix epoch.

use vstd::prelude::*;

verus! {

/// Largest year a valid `Date` may carry. It equals chrono's `MAX_YEAR`, so
/// every valid `Date` converts to a `chrono::NaiveDate` at the boundary.
pub const MAX_YEAR: u32 = 262142;

/// A calendar date in the proleptic Gregorian calendar, read as UTC.
#[derive(Clone, Copy, Debug, PartialEq, Eq, Structural)]
pub struct Date {
    pub year: u32,
    pub month: u32,
    pub day: u32,
}

/// A time of day with millisecond precision.
#[derive(Clone, Copy, Debug, PartialEq, Eq, Structural)]
pub struct TimeOfDay {
    pub hour: u32,
    pub minute: u32,
    pub second: u32,
    pub millis: u32,
}

/// An absolute UTC instant: a calendar date paired with a time of day.
#[derive(Clone, Copy, Debug, PartialEq, Eq, Structural)]
pub struct Timestamp {
    pub date: Date,
    pub time: TimeOfDay,
}

pub open spec fn is_leap_year(y: int) -> bool {
    (y % 4 == 0 && y % 100 != 0) || y % 400 == 0
}

pub open spec fn days_in_month(y: int, m: int) -> int {
    if m == 2 {
        if is_leap_year(y) { 29 } else { 28 }
    } else if m == 4 || m == 6 || m == 9 || m == 11 {
        30
    } else {
        31
    }
}

impl Date {
    /// A semantically valid calendar date within the supported year range.
    pub open spec fn valid(self) -> bool {
        self.year <= MAX_YEAR
        && 1 <= self.month <= 12
        && 1 <= self.day <= days_in_month(self.year as int, self.month as int)
    }

    pub fn is_valid(&self) -> (r: bool)
        ensures r == self.valid(),
    {
        let leap = (self.year % 4 == 0 && self.year % 100 != 0) || self.year % 400 == 0;
        let dim: u32 = if self.month == 2 {
            if leap { 29 } else { 28 }
        } else if self.month == 4 || self.month == 6 || self.month == 9 || self.month == 11 {
            30
        } else {
            31
        };
        self.year <= MAX_YEAR && 1 <= self.month && self.month <= 12 && 1 <= self.day && self.day <= dim
    }
}

impl TimeOfDay {
    /// A semantically valid time of day.
    pub open spec fn valid(self) -> bool {
        self.hour < 24 && self.minute < 60 && self.second < 60 && self.millis < 1000
    }

    pub fn is_valid(&self) -> (r: bool)
        ensures r == self.valid(),
    {
        self.hour < 24 && self.minute < 60 && self.second < 60 && self.millis < 1000
    }
}

impl Timestamp {
    pub open spec fn valid(self) -> bool {
        self.date.valid() && self.time.valid()
    }
}

/// Number of leap years `z` with `0 <= z < y`.
pub open spec fn leap_years_before(y: int) -> int {
    (y + 3) / 4 - (y + 99) / 100 + (y + 399) / 400
}

/// Days from 0000-01-01 up to the first day of year `y` (for `y >= 0`).
pub open spec fn days_before_year(y: int) -> int {
    365 * y + leap_years_before(y)
}

/// Days from the first day of year `y` up to the first day of month `m`.
pub open spec fn days_before_month(y: int, m: int) -> int {
    let base: int = if m == 1 { 0 }
        else if m == 2 { 31 }
        else if m == 3 { 59 }
        else if m == 4 { 90 }
        else if m == 5 { 120 }
        else if m == 6 { 151 }
        else if m == 7 { 181 }
        else if m == 8 { 212 }
        else if m == 9 { 243 }
        else if m == 10 { 273 }
        else if m == 11 { 304 }
        else { 334 };
    base + if m > 2 && is_leap_year(y) { 1int } else { 0int }
}

/// Days from 0000-01-01 to the given date.
pub open spec fn day_number(d: Date) -> int {
    days_before_year(d.year as int) + days_before_month(d.year as int, d.month as int)
        + d.day - 1
}

/// Days from 0000-01-01 to 1970-01-01, the Unix epoch.
pub const DAYS_TO_EPOCH: u64 = 719528;

/// Milliseconds between the Unix epoch and the given instant (negative for
/// instants before the epoch).
pub open spec fn epoch_millis_of(t: Timestamp) -> int {
    (day_number(t.date) - DAYS_TO_EPOCH) * 86400000
        + t.time.hour * 3600000
        + t.time.minute * 60000
        + t.time.second * 1000
        + t.time.millis
}

impl Timestamp {
    /// Convert a valid timestamp to milliseconds since the Unix epoch.
    pub fn to_epoch_millis(&self) -> (r: i64)
        requires self.valid(),
        ensures r == epoch_millis_of(*self),
    {
        let y: u64 = self.date.year as u64;
        let leaps: u64 = (y + 3) / 4 - (y + 99) / 100 + (y + 399) / 400;
        let before_year: u64 = 365 * y + leaps;
        let base: u64 = match self.date.month {
            1 => 0,
            2 => 31,
            3 => 59,
            4 => 90,
            5 => 120,
            6 => 151,
            7 => 181,
            8 => 212,
            9 => 243,
            10 => 273,
            11 => 304,
            _ => 334,
        };
        let leap_year = (self.date.year % 4 == 0 && self.date.year % 100 != 0)
            || self.date.year % 400 == 0;
        let before_month: u64 = base + if self.date.month > 2 && leap_year { 1 } else { 0 };
        let days: u64 = before_year + before_month + self.date.day as u64 - 1;
        let time_ms: u64 = self.time.hour as u64 * 3600000
            + self.time.minute as u64 * 60000
            + self.time.second as u64 * 1000
            + self.time.millis as u64;
        let total: u64 = days * 86400000 + time_ms;
        (total as i64) - (DAYS_TO_EPOCH * 86400000) as i64
    }
}

} // verus!
