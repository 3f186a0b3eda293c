//! The proleptic Gregorian calendar, counted in days from 1970-01-01.
//!
//! Months are numbered from 0 (January) to 11 (December), days of a month from 1.

use vstd::arithmetic::div_mod::*;
use vstd::prelude::*;

verus! {

/// A leap year has a 29th of February.
pub open spec fn is_leap_year(year: int) -> bool {
    year % 4 == 0 && (year % 100 != 0 || year % 400 == 0)
}

pub open spec fn days_in_year(year: int) -> int {
    if is_leap_year(year) {
        366
    } else {
        365
    }
}

pub open spec fn days_in_month(year: int, month: int) -> int {
    if month == 1 {
        if is_leap_year(year) {
            29
        } else {
            28
        }
    } else if month == 3 || month == 5 || month == 8 || month == 10 {
        30
    } else {
        31
    }
}

/// The number of leap years among the years 1 to `year`.
pub open spec fn leap_years_through(year: int) -> int {
    year / 4 - year / 100 + year / 400
}

/// The number of days from 1970-01-01 to the first of January of `year`.
pub open spec fn days_before_year(year: int) -> int {
    365 * (year - 1970) + leap_years_through(year - 1) - leap_years_through(1969)
}

/// The number of days of `year` before the first day of `month`; `month` may be
/// 12, for the whole year.
pub open spec fn days_before_month(year: int, month: int) -> int {
    let leap_day: int = if is_leap_year(year) && month > 1 {
        1
    } else {
        0
    };
    leap_day + (if month <= 0 {
        0int
    } else if month == 1 {
        31
    } else if month == 2 {
        59
    } else if month == 3 {
        90
    } else if month == 4 {
        120
    } else if month == 5 {
        151
    } else if month == 6 {
        181
    } else if month == 7 {
        212
    } else if month == 8 {
        243
    } else if month == 9 {
        273
    } else if month == 10 {
        304
    } else if month == 11 {
        334
    } else {
        365
    })
}

/// The date `year`-`month`-`mday` exists.
pub open spec fn is_date(year: int, month: int, mday: int) -> bool {
    0 <= month < 12 && 1 <= mday <= days_in_month(year, month)
}

/// The number of days from 1970-01-01 to the given date.
pub open spec fn day_number(year: int, month: int, mday: int) -> int {
    days_before_year(year) + days_before_month(year, month) + mday - 1
}

/// A quotient grows by one at each multiple of the divisor.
proof fn lemma_quotient_step(x: int, d: int)
    requires
        d > 1,
    ensures
        x / d == (x - 1) / d + (if x % d == 0 {
            1int
        } else {
            0
        }),
{
    lemma_fundamental_div_mod(x, d);
    if x % d == 0 {
        assert(x - 1 == (x / d - 1) * d + (d - 1)) by (nonlinear_arith)
            requires
                x == d * (x / d),
        ;
        lemma_fundamental_div_mod_converse(x - 1, d, x / d - 1, d - 1);
    } else {
        assert(x - 1 == (x / d) * d + (x % d - 1)) by (nonlinear_arith)
            requires
                x == d * (x / d) + x % d,
        ;
        lemma_fundamental_div_mod_converse(x - 1, d, x / d, x % d - 1);
    }
}

/// `leap_years_through` counts the leap years one by one.
pub proof fn lemma_leap_years_step(year: int)
    ensures
        leap_years_through(year) == leap_years_through(year - 1) + (if is_leap_year(year) {
            1int
        } else {
            0
        }),
{
    lemma_quotient_step(year, 4);
    lemma_quotient_step(year, 100);
    lemma_quotient_step(year, 400);
    assert(year % 100 == 0 ==> year % 4 == 0);
    assert(year % 400 == 0 ==> year % 100 == 0);
}

/// The years follow each other without gap or overlap, from 1970 on and back.
pub proof fn law_years_are_contiguous(year: int)
    ensures
        days_before_year(1970) == 0,
        days_before_year(year + 1) == days_before_year(year) + days_in_year(year),
{
    lemma_leap_years_step(year);
}

/// The months of a year follow each other without gap or overlap and fill it.
pub proof fn law_months_are_contiguous(year: int, month: int)
    requires
        0 <= month < 12,
    ensures
        days_before_month(year, 0) == 0,
        days_before_month(year, month + 1) == days_before_month(year, month) + days_in_month(
            year,
            month,
        ),
        days_before_month(year, 12) == days_in_year(year),
{
}

} // verus!
