//! Calendar arithmetic on plain fields: validity of a proleptic-Gregorian
//! date and time of day, and conversion of a date-time to seconds since the
//! Unix epoch.  All instants produced by the library are UTC; no local time
//! zone is consulted anywhere.

use vstd::prelude::*;

verus! {

/// A calendar date with a time of day, as plain numeric fields.
#[derive(Clone, Copy, PartialEq, Eq, Structural, Debug)]
pub struct DateTimeFields {
    pub year: i32,
    pub month: u32,
    pub day: u32,
    pub hour: u32,
    pub minute: u32,
    pub second: u32,
}

pub open spec fn is_leap_year(y: int) -> bool {
    y % 4 == 0 && (y % 100 != 0 || y % 400 == 0)
}

pub open spec fn days_in_month(y: int, m: int) -> int {
    if m == 2 {
        if is_leap_year(y) {
            29
        } else {
            28
        }
    } else if m == 4 || m == 6 || m == 9 || m == 11 {
        30
    } else {
        31
    }
}

pub open spec fn valid_date(y: int, m: int, d: int) -> bool {
    1 <= m <= 12 && 1 <= d <= days_in_month(y, m)
}

pub open spec fn valid_time(h: int, mi: int, s: int) -> bool {
    0 <= h < 24 && 0 <= mi < 60 && 0 <= s < 60
}

/// The span of years every parser of this library can produce.
pub open spec fn year_in_range(y: int) -> bool {
    0 <= y <= 9999
}

pub open spec fn valid_fields(f: DateTimeFields) -> bool {
    year_in_range(f.year as int) && valid_date(f.year as int, f.month as int, f.day as int)
        && valid_time(f.hour as int, f.minute as int, f.second as int)
}

/// Days from 1970-01-01 to the given date (negative for earlier dates),
/// by the standard civil-calendar day-numbering formula.
pub open spec fn epoch_days(y: int, m: int, d: int) -> int
    recommends
        year_in_range(y),
        valid_date(y, m, d),
{
    let yadj = if m <= 2 {
        y - 1
    } else {
        y
    };
    let era = if yadj >= 0 {
        yadj / 400
    } else {
        -1
    };
    let yoe = yadj - era * 400;
    let mp = if m > 2 {
        m - 3
    } else {
        m + 9
    };
    let doy = (153 * mp + 2) / 5 + d - 1;
    let doe = yoe * 365 + yoe / 4 - yoe / 100 + doy;
    era * 146097 + doe - 719468
}

/// Seconds from the Unix epoch to the given UTC date-time.
pub open spec fn epoch_secs(f: DateTimeFields) -> int
    recommends
        valid_fields(f),
{
    epoch_days(f.year as int, f.month as int, f.day as int) * 86400 + f.hour * 3600 + f.minute
        * 60 + f.second
}

pub fn check_valid_date(y: i32, m: u32, d: u32) -> (r: bool)
    requires
        y >= 0,
    ensures
        r == valid_date(y as int, m as int, d as int),
{
    if m < 1 || m > 12 {
        return false;
    }
    let leap: bool = y % 4 == 0 && (y % 100 != 0 || y % 400 == 0);
    let dim: u32 = if m == 2 {
        if leap {
            29
        } else {
            28
        }
    } else if m == 4 || m == 6 || m == 9 || m == 11 {
        30
    } else {
        31
    };
    1 <= d && d <= dim
}

pub fn check_valid_time(h: u32, mi: u32, s: u32) -> (r: bool)
    ensures
        r == valid_time(h as int, mi as int, s as int),
{
    h < 24 && mi < 60 && s < 60
}

/// Seconds since the Unix epoch of a valid date-time.
pub fn fields_to_epoch(f: &DateTimeFields) -> (r: i64)
    requires
        valid_fields(*f),
    ensures
        r == epoch_secs(*f),
{
    let y: i64 = f.year as i64;
    let m: i64 = f.month as i64;
    let d: i64 = f.day as i64;
    let yadj: i64 = if m <= 2 {
        y - 1
    } else {
        y
    };
    let era: i64 = if yadj >= 0 {
        yadj / 400
    } else {
        -1
    };
    let yoe: i64 = yadj - era * 400;
    let mp: i64 = if m > 2 {
        m - 3
    } else {
        m + 9
    };
    let doy: i64 = (153 * mp + 2) / 5 + d - 1;
    let doe: i64 = yoe * 365 + yoe / 4 - yoe / 100 + doy;
    let days: i64 = era * 146097 + doe - 719468;
    days * 86400 + (f.hour as i64) * 3600 + (f.minute as i64) * 60 + (f.second as i64)
}

} // verus!
