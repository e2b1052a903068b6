//! Symbolic calendar-month cutoffs resolved to concrete points in time.
//!
//! The pipeline's temporal predicates compare an author timestamp (seconds
//! since the Unix epoch) against the first instant of a named month, the
//! pipeline's declared resolution.

use vstd::prelude::*;

verus! {

/// Whether `y` is a leap year in the proleptic Gregorian calendar.
pub open spec fn is_leap_year(y: int) -> bool {
    y % 4 == 0 && (y % 100 != 0 || y % 400 == 0)
}

/// Number of days in year `y`.
pub open spec fn days_in_year(y: int) -> int {
    if is_leap_year(y) {
        366
    } else {
        365
    }
}

/// Number of days from 1970-01-01 to the first day of year `y`.
pub open spec fn days_to_year(y: int) -> int
    decreases y - 1970,
{
    if y <= 1970 {
        0
    } else {
        days_to_year(y - 1) + days_in_year(y - 1)
    }
}

/// Number of days from the first day of year `y` to the first day of its
/// month `m`.
pub open spec fn days_to_month(y: int, m: int) -> int {
    let base: int = if m <= 1 {
        0
    } else if m == 2 {
        31
    } else if m == 3 {
        59
    } else if m == 4 {
        90
    } else if m == 5 {
        120
    } else if m == 6 {
        151
    } else if m == 7 {
        181
    } else if m == 8 {
        212
    } else if m == 9 {
        243
    } else if m == 10 {
        273
    } else if m == 11 {
        304
    } else {
        334
    };
    if m > 2 && is_leap_year(y) {
        base + 1
    } else {
        base
    }
}

/// Seconds from the Unix epoch to the first instant of month `m` of year
/// `y`, at the pipeline's monthly resolution.
pub open spec fn spec_month_start(y: int, m: int) -> int {
    (days_to_year(y) + days_to_month(y, m)) * 86400
}

/// Whether `y` is a leap year.
pub fn is_leap_year_exec(y: u32) -> (r: bool)
    ensures
        r == is_leap_year(y as int),
{
    y % 4 == 0 && (y % 100 != 0 || y % 400 == 0)
}

/// Resolves a symbolic calendar-month cutoff, such as December 2008, to the
/// timestamp of the first instant of that month.
pub fn month_start_timestamp(year: u32, month: u32) -> (t: i64)
    requires
        1970 <= year <= 9999,
        1 <= month <= 12,
    ensures
        t == spec_month_start(year as int, month as int),
{
    let mut days: u64 = 0;
    let mut y: u32 = 1970;
    while y < year
        invariant
            1970 <= y <= year,
            year <= 9999,
            days == days_to_year(y as int),
            days <= (y - 1970) * 366,
        decreases year - y,
    {
        if is_leap_year_exec(y) {
            days = days + 366;
        } else {
            days = days + 365;
        }
        y = y + 1;
    }
    let in_year: u64 = if month <= 1 {
        0
    } else if month == 2 {
        31
    } else if month == 3 {
        59
    } else if month == 4 {
        90
    } else if month == 5 {
        120
    } else if month == 6 {
        151
    } else if month == 7 {
        181
    } else if month == 8 {
        212
    } else if month == 9 {
        243
    } else if month == 10 {
        273
    } else if month == 11 {
        304
    } else {
        334
    };
    let leap_shift: u64 = if month > 2 && is_leap_year_exec(year) {
        1
    } else {
        0
    };
    let total_days: u64 = days + in_year + leap_shift;
    assert(total_days == days_to_year(year as int) + days_to_month(year as int, month as int));
    (total_days * 86400) as i64
}

} // verus!
