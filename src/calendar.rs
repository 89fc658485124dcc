//! Calendar dates and the timestamps derived from them.
use vstd::prelude::*;

verus! {

/// Julian day number of 1970-01-01.
pub const UNIX_EPOCH_JULIAN_DAY: i64 = 2_440_588;

/// Days from 1970-01-01 to a date of the proleptic Gregorian calendar.
///
/// The year is counted from March, so that a leap day ends it; the divisions
/// round down.
pub open spec fn days_from_civil(year: int, month: int, day: int) -> int {
    let y = if month <= 2 {
        year - 1
    } else {
        year
    };
    let m = if month > 2 {
        month - 3
    } else {
        month + 9
    };
    365 * y + y / 4 - y / 100 + y / 400 + (153 * m + 2) / 5 + day - 1 - 719468
}

/// Julian day number of a calendar date.
pub open spec fn julian_day_of(year: i32, month: u8, day: u8) -> int {
    days_from_civil(year as int, month as int, day as int) + UNIX_EPOCH_JULIAN_DAY
}

/// Leap years of the proleptic Gregorian calendar.
pub open spec fn is_leap_year(year: int) -> bool {
    year % 4 == 0 && (year % 100 != 0 || year % 400 == 0)
}

/// Number of days in a month of a year.
pub open spec fn days_in_month(year: int, month: int) -> int {
    if month == 2 {
        if is_leap_year(year) {
            29
        } else {
            28
        }
    } else if month == 4 || month == 6 || month == 9 || month == 11 {
        30
    } else {
        31
    }
}

/// A date of the calendar, in the year range that `time` supports.
pub open spec fn valid_date(year: int, month: int, day: int) -> bool {
    &&& -9999 <= year <= 9999
    &&& 1 <= month <= 12
    &&& 1 <= day <= days_in_month(year, month)
}

/// Relies on `time::Date::from_calendar_date`, which accepts exactly the
/// valid dates of years -9999 to 9999, and on `Date::to_julian_day`.
#[verifier::external_body]
fn julian_day(year: i32, month: u8, day: u8) -> (r: Option<i32>)
    ensures
        valid_date(year as int, month as int, day as int) ==> r == Some(
            julian_day_of(year, month, day) as i32,
        ),
        !valid_date(year as int, month as int, day as int) ==> r is None,
{
    let month = match time::Month::try_from(month) {
        Ok(m) => m,
        Err(_) => return None,
    };
    match time::Date::from_calendar_date(year, month, day) {
        Ok(d) => Some(d.to_julian_day()),
        Err(_) => None,
    }
}

/// Seconds since 1970-01-01 00:00 of a wall-clock date and time, counted as
/// if the wall clock showed UTC.
pub open spec fn timestamp_of(year: i32, month: u8, day: u8, hour: u8, minute: u8) -> int {
    (julian_day_of(year, month, day) - UNIX_EPOCH_JULIAN_DAY) * 86400 + hour * 3600 + minute * 60
}

/// The timestamp of a wall-clock date and time with zero seconds, or `None`
/// for a date that does not exist.
pub fn wall_clock_timestamp(year: i32, month: u8, day: u8, hour: u8, minute: u8) -> (r: Option<
    i64,
>)
    ensures
        valid_date(year as int, month as int, day as int) ==> r == Some(
            timestamp_of(year, month, day, hour, minute) as i64,
        ),
        !valid_date(year as int, month as int, day as int) ==> r is None,
{
    match julian_day(year, month, day) {
        None => None,
        Some(jd) => {
            let days = jd as i64 - UNIX_EPOCH_JULIAN_DAY;
            Some(days * 86400 + hour as i64 * 3600 + minute as i64 * 60)
        },
    }
}

} // verus!
