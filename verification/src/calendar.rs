//! The proleptic Gregorian calendar: dates, their day numbers counted from
//! 1970-01-01, and the date of a day number.

use vstd::prelude::*;

verus! {

/// A date of the proleptic Gregorian calendar.
pub struct CivilDate {
    pub year: int,
    pub month: int,
    pub day: int,
}

/// Every fourth year is a leap year, except centuries not divisible by 400.
pub open spec fn is_leap_year(y: int) -> bool {
    y % 4 == 0 && (y % 100 != 0 || y % 400 == 0)
}

pub open spec fn days_in_month(y: int, m: int) -> int {
    if m == 2 {
        if is_leap_year(y) {
            29
        } else {
            28
        }
    } else if m == 4 || m == 6 || m == 9 || m == 11 {
        30
    } else {
        31
    }
}

/// A month from 1 to 12, and a day that the month has.
pub open spec fn valid_date(c: CivilDate) -> bool {
    1 <= c.month <= 12 && 1 <= c.day <= days_in_month(c.year, c.month)
}

/// `n / 4 - n / 100 + n / 400`: for `n >= 1`, the number of leap years from 1
/// to `n`; it grows by one exactly at each leap year, for negative `n` too.
pub open spec fn leap_count(n: int) -> int {
    n / 4 - n / 100 + n / 400
}

/// Days from 1970-01-01 to January 1st of year `y` (negative before 1970).
pub open spec fn days_before_year(y: int) -> int {
    365 * (y - 1970) + leap_count(y - 1) - leap_count(1969)
}

/// Days of year `y` before the first of month `m`.
pub open spec fn days_before_month(y: int, m: int) -> int {
    let common: int = if m <= 1 {
        0
    } else if m == 2 {
        31
    } else if m == 3 {
        59
    } else if m == 4 {
        90
    } else if m == 5 {
        120
    } else if m == 6 {
        151
    } else if m == 7 {
        181
    } else if m == 8 {
        212
    } else if m == 9 {
        243
    } else if m == 10 {
        273
    } else if m == 11 {
        304
    } else {
        334
    };
    if m > 2 && is_leap_year(y) {
        common + 1
    } else {
        common
    }
}

/// The day number of a date: days from 1970-01-01 (day 0).
pub open spec fn days_from_civil(c: CivilDate) -> int {
    days_before_year(c.year) + days_before_month(c.year, c.month) + c.day - 1
}

/// The date whose day number is `n`.
pub open spec fn civil_from_days(n: int) -> CivilDate {
    choose|c: CivilDate| valid_date(c) && days_from_civil(c) == n
}

/// `a` is an earlier date than `b`, or the same.
pub open spec fn date_le(a: CivilDate, b: CivilDate) -> bool {
    a.year < b.year || (a.year == b.year && (a.month < b.month || (a.month == b.month && a.day <= b.day)))
}

proof fn lemma_leap_count_step(y: int)
    ensures
        leap_count(y) - leap_count(y - 1) == if is_leap_year(y) {
            1int
        } else {
            0int
        },
{
    assert(y / 4 - (y - 1) / 4 == if y % 4 == 0 { 1int } else { 0int }) by (nonlinear_arith);
    assert(y / 100 - (y - 1) / 100 == if y % 100 == 0 { 1int } else { 0int }) by (nonlinear_arith);
    assert(y / 400 - (y - 1) / 400 == if y % 400 == 0 { 1int } else { 0int }) by (nonlinear_arith);
    assert(y % 100 == 0 ==> y % 4 == 0) by (nonlinear_arith);
    assert(y % 400 == 0 ==> y % 100 == 0) by (nonlinear_arith);
}

/// A year has 365 days, 366 in a leap year.
proof fn lemma_year_length(y: int)
    ensures
        days_before_year(y + 1) == days_before_year(y) + 365 + if is_leap_year(y) {
            1int
        } else {
            0int
        },
{
    lemma_leap_count_step(y);
}

/// Years further on start further on: `days_before_year` is increasing.
proof fn lemma_days_before_year_increasing(a: int, b: int)
    requires
        a < b,
    ensures
        days_before_year(a) + 365 <= days_before_year(b),
        days_before_year(a + 1) <= days_before_year(b),
    decreases b - a,
{
    lemma_year_length(a);
    if a + 1 < b {
        lemma_days_before_year_increasing(a + 1, b);
    }
}

/// The months of a year follow one another, and December ends the year.
proof fn lemma_month_lengths(y: int, m: int)
    requires
        1 <= m <= 12,
    ensures
        m < 12 ==> days_before_month(y, m + 1) == days_before_month(y, m) + days_in_month(y, m),
        m == 12 ==> days_before_month(y, m) + days_in_month(y, m) == days_before_year(y + 1)
            - days_before_year(y),
        days_before_month(y, m) >= 0,
{
    lemma_year_length(y);
}

/// Later dates have larger day numbers.
pub proof fn lemma_days_from_civil_increasing(a: CivilDate, b: CivilDate)
    requires
        valid_date(a),
        valid_date(b),
        date_le(a, b),
        a != b,
    ensures
        days_from_civil(a) < days_from_civil(b),
{
    if a.year < b.year {
        lemma_month_lengths(a.year, 12);
        lemma_month_lengths(b.year, b.month);
        if a.month < 12 {
            lemma_months_increasing(a.year, a.month, 12);
        }
        lemma_days_before_year_increasing(a.year, b.year);
    } else if a.month < b.month {
        lemma_month_lengths(a.year, a.month);
        lemma_months_increasing(a.year, a.month + 1, b.month);
    }
}

/// `days_before_month` does not decrease over the months of a year.
proof fn lemma_months_increasing(y: int, m1: int, m2: int)
    requires
        1 <= m1 <= m2 <= 12,
    ensures
        days_before_month(y, m1) <= days_before_month(y, m2),
{
}

/// Every day number is the day number of a date, and of one date only.
pub proof fn lemma_civil_from_days(n: int)
    ensures
        valid_date(civil_from_days(n)),
        days_from_civil(civil_from_days(n)) == n,
        forall|c: CivilDate| valid_date(c) && days_from_civil(c) == n ==> c == civil_from_days(n),
{
    let y = if n >= 0 {
        lemma_find_year_up(1970, n)
    } else {
        lemma_find_year_down(1969, n)
    };
    let r = n - days_before_year(y);
    lemma_year_length(y);
    let m: int = if r < days_before_month(y, 2) {
        1
    } else if r < days_before_month(y, 3) {
        2
    } else if r < days_before_month(y, 4) {
        3
    } else if r < days_before_month(y, 5) {
        4
    } else if r < days_before_month(y, 6) {
        5
    } else if r < days_before_month(y, 7) {
        6
    } else if r < days_before_month(y, 8) {
        7
    } else if r < days_before_month(y, 9) {
        8
    } else if r < days_before_month(y, 10) {
        9
    } else if r < days_before_month(y, 11) {
        10
    } else if r < days_before_month(y, 12) {
        11
    } else {
        12
    };
    let c = CivilDate { year: y, month: m, day: r - days_before_month(y, m) + 1 };
    assert(valid_date(c) && days_from_civil(c) == n);
    assert forall|d: CivilDate| valid_date(d) && days_from_civil(d) == n implies d == civil_from_days(n) by {
        let e = civil_from_days(n);
        if d != e {
            if date_le(d, e) {
                lemma_days_from_civil_increasing(d, e);
            } else {
                lemma_days_from_civil_increasing(e, d);
            }
        }
    }
}

/// The year, from `y` on, that holds the day `n`.
proof fn lemma_find_year_up(y: int, n: int) -> (r: int)
    requires
        days_before_year(y) <= n,
    ensures
        days_before_year(r) <= n < days_before_year(r + 1),
    decreases n - days_before_year(y),
{
    lemma_year_length(y);
    if n < days_before_year(y + 1) {
        y
    } else {
        lemma_find_year_up(y + 1, n)
    }
}

/// The year, from `y` back, that holds the day `n`.
proof fn lemma_find_year_down(y: int, n: int) -> (r: int)
    requires
        n < days_before_year(y + 1),
    ensures
        days_before_year(r) <= n < days_before_year(r + 1),
    decreases days_before_year(y + 1) - n,
{
    lemma_year_length(y);
    if days_before_year(y) <= n {
        y
    } else {
        lemma_find_year_down(y - 1, n)
    }
}

/// The dates of two day numbers are in the order of the numbers.
pub proof fn lemma_civil_from_days_ordered(n1: int, n2: int)
    requires
        n1 <= n2,
    ensures
        date_le(civil_from_days(n1), civil_from_days(n2)),
{
    lemma_civil_from_days(n1);
    lemma_civil_from_days(n2);
    let (a, b) = (civil_from_days(n1), civil_from_days(n2));
    if !date_le(a, b) {
        lemma_days_from_civil_increasing(b, a);
    }
}

} // verus!
