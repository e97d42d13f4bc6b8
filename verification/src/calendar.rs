//! The proleptic Gregorian calendar, counted in days from 1970-01-01.

use vstd::prelude::*;

verus! {

/// A leap year: divisible by 4, and not by 100 unless by 400.
pub open spec fn is_leap(y: int) -> bool {
    y % 4 == 0 && (y % 100 != 0 || y % 400 == 0)
}

pub open spec fn leap_day(y: int) -> int {
    if is_leap(y) {
        1
    } else {
        0
    }
}

/// The length of month `m` (1 to 12) of year `y`.
pub open spec fn days_in_month(y: int, m: int) -> int {
    if m == 2 {
        28 + leap_day(y)
    } else if m == 4 || m == 6 || m == 9 || m == 11 {
        30
    } else {
        31
    }
}

/// The days of year `y` before the first of month `m`.
pub open spec fn days_before_month(y: int, m: int) -> int
    decreases m,
{
    if m <= 1 {
        0
    } else {
        days_before_month(y, m - 1) + days_in_month(y, m - 1)
    }
}

/// Leap years from year 1 through year `y`, less those from year 1 through
/// year 0 (none), counted by the rule.
pub open spec fn leaps_through(y: int) -> int {
    y / 4 - y / 100 + y / 400
}

/// Days from 1970-01-01 to the first of January of year `y`: 365 for each
/// year between, plus one for each leap year among them.
pub open spec fn year_start(y: int) -> int {
    365 * (y - 1970) + leaps_through(y - 1) - leaps_through(1969)
}

/// Days from 1970-01-01 to year `y`, month `m`, day `d`.
pub open spec fn days_from_civil(y: int, m: int, d: int) -> int {
    year_start(y) + days_before_month(y, m) + d - 1
}

/// A real date: a month of the year and a day of that month.
pub open spec fn is_date(y: int, m: int, d: int) -> bool {
    1 <= m <= 12 && 1 <= d <= days_in_month(y, m)
}

/// The date `days` days after 1970-01-01.
pub open spec fn spec_civil_date(days: u64) -> (int, int, int) {
    choose|t: (int, int, int)| is_date(t.0, t.1, t.2) && days_from_civil(t.0, t.1, t.2) == days
}

pub proof fn lemma_year_step(y: int)
    ensures
        year_start(y + 1) == year_start(y) + 365 + leap_day(y),
{
    assert(leaps_through(y) - leaps_through(y - 1) == leap_day(y)) by {
        assert(y / 4 - (y - 1) / 4 == if y % 4 == 0 {
            1int
        } else {
            0int
        });
        assert(y / 100 - (y - 1) / 100 == if y % 100 == 0 {
            1int
        } else {
            0int
        });
        assert(y / 400 - (y - 1) / 400 == if y % 400 == 0 {
            1int
        } else {
            0int
        });
        assert(y % 400 == 0 ==> y % 100 == 0 && y % 4 == 0);
        assert(y % 100 == 0 ==> y % 4 == 0);
    }
}

/// Four hundred years always hold the same number of days.
pub proof fn lemma_era_step(y: int)
    ensures
        year_start(y + 400) == year_start(y) + 146_097,
{
    assert((y + 399) / 4 == (y - 1) / 4 + 100);
    assert((y + 399) / 100 == (y - 1) / 100 + 4);
    assert((y + 399) / 400 == (y - 1) / 400 + 1);
}

proof fn lemma_eras(e: nat)
    ensures
        year_start(1970 + 400 * e as int) == 146_097 * e,
    decreases e,
{
    if e > 0 {
        lemma_eras((e - 1) as nat);
        lemma_era_step(1970 + 400 * (e - 1) as int);
        assert(1970 + 400 * (e - 1) + 400 == 1970 + 400 * e) by (nonlinear_arith);
        assert(146_097 * (e - 1) + 146_097 == 146_097 * e) by (nonlinear_arith);
    } else {
        assert(year_start(1970) == 0);
    }
}

proof fn lemma_month_step(y: int, m: int)
    requires
        1 <= m,
    ensures
        days_before_month(y, m + 1) == days_before_month(y, m) + days_in_month(y, m),
{
}

/// The months of a year add up to the year.
proof fn lemma_whole_year(y: int)
    ensures
        days_before_month(y, 13) == 365 + leap_day(y),
{
    reveal_with_fuel(days_before_month, 13);
}

proof fn lemma_months_grow(y: int, a: int, b: int)
    requires
        1 <= a <= b,
    ensures
        days_before_month(y, a) <= days_before_month(y, b),
    decreases b - a,
{
    if a < b {
        lemma_months_grow(y, a, b - 1);
        lemma_month_step(y, b - 1);
    }
}

/// A date falls within its own year.
proof fn lemma_within_year(y: int, m: int, d: int)
    requires
        is_date(y, m, d),
    ensures
        year_start(y) <= days_from_civil(y, m, d) < year_start(y + 1),
{
    lemma_month_step(y, m);
    lemma_months_grow(y, 1, m);
    lemma_months_grow(y, m + 1, 13);
    lemma_whole_year(y);
    lemma_year_step(y);
}

/// Later years start later.
proof fn lemma_years_grow(a: int, b: int)
    requires
        a < b,
    ensures
        year_start(a + 1) <= year_start(b),
    decreases b - a,
{
    if a + 1 < b {
        lemma_years_grow(a, b - 1);
        lemma_year_step(b - 1);
    }
}

/// No two dates are the same number of days after 1970-01-01.
pub proof fn lemma_dates_differ(y1: int, m1: int, d1: int, y2: int, m2: int, d2: int)
    requires
        is_date(y1, m1, d1),
        is_date(y2, m2, d2),
        days_from_civil(y1, m1, d1) == days_from_civil(y2, m2, d2),
    ensures
        y1 == y2 && m1 == m2 && d1 == d2,
{
    lemma_within_year(y1, m1, d1);
    lemma_within_year(y2, m2, d2);
    if y1 < y2 {
        lemma_years_grow(y1, y2);
    } else if y2 < y1 {
        lemma_years_grow(y2, y1);
    }
    assert(y1 == y2);
    if m1 < m2 {
        lemma_month_step(y1, m1);
        lemma_months_grow(y1, m1 + 1, m2);
    } else if m2 < m1 {
        lemma_month_step(y1, m2);
        lemma_months_grow(y1, m2 + 1, m1);
    }
}

fn leap(y: i64) -> (b: bool)
    requires
        y >= 0,
    ensures
        b == is_leap(y as int),
{
    y % 4 == 0 && (y % 100 != 0 || y % 400 == 0)
}

fn year_len(y: i64) -> (n: u64)
    requires
        y >= 0,
    ensures
        n == 365 + leap_day(y as int),
{
    if leap(y) {
        366
    } else {
        365
    }
}

fn month_len(y: i64, m: u32) -> (n: u64)
    requires
        y >= 0,
    ensures
        n == days_in_month(y as int, m as int),
{
    if m == 2 {
        if leap(y) {
            29
        } else {
            28
        }
    } else if m == 4 || m == 6 || m == 9 || m == 11 {
        30
    } else {
        31
    }
}

/// Year, month and day for a count of days since 1970-01-01: whole spans
/// of four hundred years, then whole years, then whole months.
pub fn civil_date(days: u64) -> (r: (i64, u32, u32))
    requires
        days <= i64::MAX - 719_468,
    ensures
        is_date(r.0 as int, r.1 as int, r.2 as int),
        days_from_civil(r.0 as int, r.1 as int, r.2 as int) == days,
        (r.0 as int, r.1 as int, r.2 as int) == spec_civil_date(days),
        r.0 >= 1970,
{
    let eras = days / 146_097;
    let mut rest = days % 146_097;
    assert(400 * eras <= i64::MAX / 300) by (nonlinear_arith)
        requires
            eras == days / 146_097,
            days <= i64::MAX,
    ;
    let mut y: i64 = 1970 + 400 * eras as i64;
    proof {
        lemma_eras(eras as nat);
        assert(days == 146_097 * eras + rest) by (nonlinear_arith)
            requires
                eras == days / 146_097,
                rest == days % 146_097,
        ;
    }
    let y0 = y;
    let rest0 = rest;
    while rest >= year_len(y)
        invariant
            days == year_start(y as int) + rest,
            y0 == 1970 + 400 * eras,
            400 * eras <= i64::MAX / 300,
            rest0 < 146_097,
            y0 <= y <= y0 + (rest0 - rest),
            rest <= rest0,
        decreases rest,
    {
        proof {
            lemma_year_step(y as int);
        }
        rest = rest - year_len(y);
        y = y + 1;
    }
    proof {
        lemma_whole_year(y as int);
    }
    let mut m: u32 = 1;
    while rest >= month_len(y, m)
        invariant
            days == year_start(y as int) + days_before_month(y as int, m as int) + rest,
            1 <= m <= 12,
            y >= 1970,
            rest < days_before_month(y as int, 13) - days_before_month(y as int, m as int),
            days_before_month(y as int, 13) == 365 + leap_day(y as int),
        decreases 12 - m,
    {
        proof {
            lemma_month_step(y as int, m as int);
            if m == 12 {
                assert(false);
            }
        }
        rest = rest - month_len(y, m);
        m = m + 1;
    }
    proof {
        lemma_month_step(y as int, m as int);
    }
    let d = (rest + 1) as u32;
    proof {
        let t = (y as int, m as int, d as int);
        assert(is_date(t.0, t.1, t.2) && days_from_civil(t.0, t.1, t.2) == days);
        let c = spec_civil_date(days);
        lemma_dates_differ(t.0, t.1, t.2, c.0, c.1, c.2);
    }
    (y, m, d)
}

/// The first of January 1970 is day 0, and each day is the next one on the
/// calendar: the day after the last of a month is the first of the next,
/// and the day after the last of December is New Year's Day.
pub proof fn lemma_dates_follow_each_other(days: u64)
    requires
        days < i64::MAX - 719_468,
    ensures
        spec_civil_date(0) == (1970int, 1int, 1int),
        ({
            let (y, m, d) = spec_civil_date(days);
            let next = spec_civil_date((days + 1) as u64);
            &&& is_date(y, m, d)
            &&& days_from_civil(y, m, d) == days
            &&& next == if d < days_in_month(y, m) {
                (y, m, d + 1)
            } else if m < 12 {
                (y, m + 1, 1int)
            } else {
                (y + 1, 1int, 1int)
            }
        }),
{
    let t0 = (1970int, 1int, 1int);
    assert(is_date(t0.0, t0.1, t0.2) && days_from_civil(t0.0, t0.1, t0.2) == 0);
    let c0 = spec_civil_date(0);
    lemma_dates_differ(t0.0, t0.1, t0.2, c0.0, c0.1, c0.2);
    let r = spec_civil_date(days);
    lemma_exists_date(days);
    lemma_exists_date((days + 1) as u64);
    let (y, m, d) = r;
    let n = if d < days_in_month(y, m) {
        (y, m, d + 1)
    } else if m < 12 {
        (y, m + 1, 1int)
    } else {
        (y + 1, 1int, 1int)
    };
    if d < days_in_month(y, m) {
    } else if m < 12 {
        lemma_month_step(y, m);
    } else {
        lemma_month_step(y, 12);
        lemma_whole_year(y);
        lemma_year_step(y);
    }
    assert(is_date(n.0, n.1, n.2) && days_from_civil(n.0, n.1, n.2) == days + 1);
    let c = spec_civil_date((days + 1) as u64);
    lemma_dates_differ(n.0, n.1, n.2, c.0, c.1, c.2);
}

/// Every day count names a date.
proof fn lemma_exists_date(days: u64)
    requires
        days <= i64::MAX - 719_468,
    ensures
        ({
            let c = spec_civil_date(days);
            is_date(c.0, c.1, c.2) && days_from_civil(c.0, c.1, c.2) == days
        }),
{
    let eras = days / 146_097;
    let rest: int = (days % 146_097) as int;
    let y: int = 1970 + 400 * eras as int;
    lemma_eras(eras as nat);
    assert(days == 146_097 * eras + rest) by (nonlinear_arith)
        requires
            eras == days / 146_097,
            rest == days % 146_097,
    ;
    let (yy, rr) = lemma_whole_years(y, rest, days as int);
    lemma_whole_year(yy);
    let (mm, r2) = lemma_whole_months(yy, 1, rr, days as int);
    let t = (yy, mm, r2 + 1);
    assert(is_date(t.0, t.1, t.2) && days_from_civil(t.0, t.1, t.2) == days);
}

proof fn lemma_whole_years(y: int, rest: int, days: int) -> (r: (int, int))
    requires
        days == year_start(y) + rest,
        rest >= 0,
    ensures
        days == year_start(r.0) + r.1,
        0 <= r.1 < 365 + leap_day(r.0),
    decreases rest,
{
    if rest >= 365 + leap_day(y) {
        lemma_year_step(y);
        lemma_whole_years(y + 1, rest - 365 - leap_day(y), days)
    } else {
        (y, rest)
    }
}

proof fn lemma_whole_months(y: int, m: int, rest: int, days: int) -> (r: (int, int))
    requires
        days == year_start(y) + days_before_month(y, m) + rest,
        1 <= m <= 12,
        0 <= rest < days_before_month(y, 13) - days_before_month(y, m),
    ensures
        days == year_start(y) + days_before_month(y, r.0) + r.1,
        1 <= r.0 <= 12,
        0 <= r.1 < days_in_month(y, r.0),
    decreases 12 - m,
{
    lemma_month_step(y, m);
    if rest >= days_in_month(y, m) {
        if m == 12 {
            assert(false);
        }
        lemma_whole_months(y, m + 1, rest - days_in_month(y, m), days)
    } else {
        (m, rest)
    }
}

} // verus!
