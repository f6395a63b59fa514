//! Financial day count conventions.
//!
//! Day counts are whole numbers of days between two instants; the year
//! fraction of a convention is its day count over its year basis (360 or 365).

use vstd::prelude::*;
use crate::calendar::{date_le, lemma_civil_from_days, lemma_civil_from_days_ordered, valid_date, CivilDate};
use crate::datetime::{
    date_of, instant_le, spec_add_days, spec_days_between, spec_seconds_between, trunc_div, valid_instant, Instant,
    UtcDateTime,
};
use crate::error::ExpirationDateError;

verus! {

/// Actual/360 day count convention. Commonly used in money markets.
#[derive(Debug, Clone, Copy, PartialEq, Eq, PartialOrd, Ord, Hash, Default)]
pub struct Actual360;

/// Actual/365 Fixed day count convention. Standard for many derivatives.
#[derive(Debug, Clone, Copy, PartialEq, Eq, PartialOrd, Ord, Hash, Default)]
pub struct Actual365Fixed;

/// 30/360 US (NASD) day count convention.
#[derive(Debug, Clone, Copy, PartialEq, Eq, PartialOrd, Ord, Hash, Default)]
pub struct Thirty360US;

/// The 30/360 US day count from the date `a` to the date `b`: the first day is
/// capped at 30, and a 31st ending day counts as the 30th when the (capped)
/// first day is the 30th.
pub open spec fn thirty_360_us_days(a: CivilDate, b: CivilDate) -> int {
    let start_day = if a.day > 30 { 30 } else { a.day };
    let end_day = if start_day == 30 && b.day == 31 { 30 } else { b.day };
    (b.year - a.year) * 360 + (b.month - a.month) * 30 + (end_day - start_day)
}

impl Actual360 {
    /// Actual days from `start` to `end`: whole days elapsed, truncated towards zero.
    pub fn day_count(&self, start: &UtcDateTime, end: &UtcDateTime) -> (r: Result<i64, ExpirationDateError>)
        ensures
            r matches Ok(v) && v == spec_days_between(end@, start@),
    {
        Ok(end.days_since(start))
    }

    /// The number of days in a year for this convention.
    pub fn year_basis(&self) -> (r: u32)
        ensures
            r == 360,
    {
        360
    }
}

impl Actual365Fixed {
    /// Actual days from `start` to `end`: whole days elapsed, truncated towards zero.
    pub fn day_count(&self, start: &UtcDateTime, end: &UtcDateTime) -> (r: Result<i64, ExpirationDateError>)
        ensures
            r matches Ok(v) && v == spec_days_between(end@, start@),
    {
        Ok(end.days_since(start))
    }

    /// The number of days in a year for this convention.
    pub fn year_basis(&self) -> (r: u32)
        ensures
            r == 365,
    {
        365
    }
}

impl Thirty360US {
    /// Days from `start` to `end` counting every month as 30 days and every
    /// year as 360, on the calendar dates (UTC) of the two instants.
    pub fn day_count(&self, start: &UtcDateTime, end: &UtcDateTime) -> (r: Result<i64, ExpirationDateError>)
        ensures
            r matches Ok(v) && v == thirty_360_us_days(date_of(start@), date_of(end@)),
    {
        let start_day = start.day();
        let d1: i64 = if start_day > 30 { 30 } else { start_day as i64 };
        let mut d2: i64 = end.day() as i64;
        if d1 == 30 && d2 == 31 {
            d2 = 30;
        }
        let m1: i64 = start.month() as i64;
        let m2: i64 = end.month() as i64;
        let y1: i64 = start.year() as i64;
        let y2: i64 = end.year() as i64;
        Ok((y2 - y1) * 360 + (m2 - m1) * 30 + (d2 - d1))
    }

    /// The number of days in a year for this convention.
    pub fn year_basis(&self) -> (r: u32)
        ensures
            r == 360,
    {
        360
    }
}

/// The actual day count from an instant to a later one (or the same) is never
/// negative, so neither are the year fractions of the actual conventions.
pub proof fn lemma_actual_days_nonnegative(start: Instant, end: Instant)
    requires
        valid_instant(start),
        valid_instant(end),
        instant_le(start, end),
    ensures
        spec_seconds_between(end, start) >= 0,
        spec_days_between(end, start) >= 0,
{
}

/// A number of whole days added to an instant (outside a leap second) is that
/// many days by the actual day count: an expiration of `n` days resolved from
/// now is `n` days, `n / 365` years under Actual/365 Fixed, away.
pub proof fn lemma_added_days_are_counted(base: Instant, n: int)
    requires
        valid_instant(base),
        base.nanos < 1_000_000_000,
        spec_add_days(base, n) is Some,
    ensures
        spec_seconds_between(spec_add_days(base, n)->0, base) == n * 86400,
        spec_days_between(spec_add_days(base, n)->0, base) == n,
{
    let end = spec_add_days(base, n)->0;
    assert(end.secs % 86400 == base.secs % 86400) by (nonlinear_arith)
        requires
            end.secs == base.secs + n * 86400,
    ;
    assert(trunc_div(n * 86400, 86400) == n) by (nonlinear_arith);
}

/// The 30/360 US day count from a calendar date to a later one (or the same)
/// is never negative.
pub proof fn lemma_thirty_360_us_nonnegative(a: CivilDate, b: CivilDate)
    requires
        valid_date(a),
        valid_date(b),
        date_le(a, b),
    ensures
        thirty_360_us_days(a, b) >= 0,
{
    if a.year < b.year {
        assert((b.year - a.year) * 360 >= 360) by (nonlinear_arith)
            requires
                b.year - a.year >= 1,
        ;
    }
}

/// The 30/360 US day count from an instant to a later one (or the same) is
/// never negative, so neither is its year fraction.
pub proof fn lemma_thirty_360_us_instants_nonnegative(start: Instant, end: Instant)
    requires
        valid_instant(start),
        valid_instant(end),
        instant_le(start, end),
    ensures
        thirty_360_us_days(date_of(start), date_of(end)) >= 0,
{
    assert(start.secs / 86400 <= end.secs / 86400) by (nonlinear_arith)
        requires
            start.secs <= end.secs,
    ;
    lemma_civil_from_days(start.secs / 86400);
    lemma_civil_from_days(end.secs / 86400);
    lemma_civil_from_days_ordered(start.secs / 86400, end.secs / 86400);
    lemma_thirty_360_us_nonnegative(date_of(start), date_of(end));
}

/// Under 30/360 US a start on the 31st counts as a start on the 30th, whatever
/// the end date.
pub proof fn lemma_thirty_360_us_start_on_31st(a: CivilDate, b: CivilDate)
    requires
        a.day == 31,
    ensures
        thirty_360_us_days(a, b) == thirty_360_us_days(CivilDate { year: a.year, month: a.month, day: 30 }, b),
{
}

/// Under 30/360 US, from a start before the 30th the count is 360 days a year,
/// 30 days a month and the difference of the days of the month, the end day
/// as it is (a 31st included).
pub proof fn lemma_thirty_360_us_early_start(a: CivilDate, b: CivilDate)
    requires
        a.day < 30,
    ensures
        thirty_360_us_days(a, b) == 360 * (b.year - a.year) + 30 * (b.month - a.month) + (b.day - a.day),
{
}

/// Under 30/360 US, from a start on the 30th or 31st to an end on the 30th or
/// 31st, the count is whole months of 30 days: `30 * k` for an end `k` months on.
pub proof fn lemma_thirty_360_us_month_ends(a: CivilDate, b: CivilDate)
    requires
        a.day == 30 || a.day == 31,
        b.day == 30 || b.day == 31,
    ensures
        thirty_360_us_days(a, b) == 360 * (b.year - a.year) + 30 * (b.month - a.month),
{
}

/// Under 30/360 US, from a start on the 30th or 31st to an end before the 30th,
/// the start counts as the 30th.
pub proof fn lemma_thirty_360_us_late_start(a: CivilDate, b: CivilDate)
    requires
        a.day == 30 || a.day == 31,
        b.day < 30,
    ensures
        thirty_360_us_days(a, b) == 360 * (b.year - a.year) + 30 * (b.month - a.month) + (b.day - 30),
{
}

} // verus!
