//! The expiration of a financial instrument and its resolution to an instant.
//!
//! Resolving a relative expiration (a number of days) needs a base instant:
//! the reference datetime when one is set, otherwise the current time. Both are
//! explicit here: functions that read the clock say so, and the reference
//! datetime is passed in by the caller that keeps it.

use vstd::prelude::*;
use crate::datetime::{format_text, instant_le, spec_add_days, spec_seconds_between, Instant, UtcDateTime};
use crate::decimal::{dec_trunc, DecimalView, PositiveDecimal};
use crate::error::ExpirationDateError;

verus! {

/// Represents the expiration of a financial instrument.
#[derive(Debug, Clone, Copy)]
pub enum ExpirationDate {
    /// Relative expiration in non-negative fractional days.
    Days(PositiveDecimal),
    /// Absolute expiration point in UTC.
    DateTime(UtcDateTime),
}

/// What the number of days until an expiration rests on.
#[derive(Debug, Clone, Copy)]
pub enum TimeRemaining {
    /// The expiration is a number of days, which it holds.
    Days(PositiveDecimal),
    /// The expiration is a datetime this many whole seconds ahead (at least one).
    Seconds(i64),
    /// The expiration is a datetime at most a fraction of a second ahead, or past.
    Expired,
}

/// The instant that relative expirations count from: the reference datetime
/// when one is set, otherwise `now`.
pub open spec fn base_instant(now: Instant, reference: Option<UtcDateTime>) -> Instant {
    match reference {
        Some(r) => r@,
        None => now,
    }
}

/// 18:30:00 UTC on the day of `now`, the base of relative expirations at a fixed time.
pub open spec fn fixed_time_base(now: Instant) -> Instant {
    Instant { secs: (now.secs / 86400) * 86400 + 66600, nanos: 0 }
}

/// How resolving `days` days after `base` ends: the instant reached, a
/// conversion error when the whole days exceed `i64::MAX`, or an overflow
/// when the result leaves the supported range.
pub open spec fn days_after_ok(
    base: Instant,
    days: DecimalView,
    r: Result<UtcDateTime, ExpirationDateError>,
) -> bool {
    if dec_trunc(days) > i64::MAX {
        r matches Err(ExpirationDateError::PositiveError(_))
    } else {
        match spec_add_days(base, dec_trunc(days) as int) {
            Some(t) => r matches Ok(x) && x@ == t,
            None => r matches Err(ExpirationDateError::ArithmeticOverflow(_)),
        }
    }
}

/// How resolving `days` days ends at the current time `now`, with or without
/// the fixed time of day.
pub open spec fn days_resolved_at(
    days: DecimalView,
    use_fixed_time: bool,
    now: Instant,
    reference: Option<UtcDateTime>,
    r: Result<UtcDateTime, ExpirationDateError>,
) -> bool {
    if use_fixed_time {
        days_after_ok(fixed_time_base(now), days, r)
    } else {
        days_after_ok(base_instant(now, reference), days, r)
    }
}

/// How writing the date of `days` days from 18:30:00 UTC of the day of `now`
/// ends: the date `YYYY-MM-DD`, or the error of resolving it.
pub open spec fn date_string_at(days: DecimalView, now: Instant, r: Result<String, ExpirationDateError>) -> bool {
    if dec_trunc(days) > i64::MAX {
        r matches Err(ExpirationDateError::PositiveError(_))
    } else {
        match spec_add_days(fixed_time_base(now), dec_trunc(days) as int) {
            Some(t) => r matches Ok(s) && s@ == format_text(t, "%Y-%m-%d"@),
            None => r matches Err(ExpirationDateError::ArithmeticOverflow(_)),
        }
    }
}

/// Adds the whole days of `days` to `base`.
fn add_whole_days(base: &UtcDateTime, days: &PositiveDecimal) -> (r: Result<UtcDateTime, ExpirationDateError>)
    ensures
        days_after_ok(base@, days@, r),
{
    match days.try_to_i64() {
        Ok(whole) => match base.checked_add_days(whole) {
            Some(t) => Ok(t),
            None => Err(
                ExpirationDateError::ArithmeticOverflow(
                    String::from_str("expiration date out of the supported datetime range"),
                ),
            ),
        },
        Err(e) => Err(ExpirationDateError::PositiveError(e)),
    }
}

impl ExpirationDate {
    /// Resolves to an absolute instant: a datetime stands for itself; a number of
    /// days is added (its whole part) to the reference datetime, or to `now` when
    /// none is set.
    pub fn get_date_with_base(&self, now: &UtcDateTime, reference: Option<UtcDateTime>) -> (r: Result<
        UtcDateTime,
        ExpirationDateError,
    >)
        ensures
            match *self {
                ExpirationDate::DateTime(dt) => r matches Ok(t) && t@ == dt@,
                ExpirationDate::Days(d) => days_after_ok(base_instant(now@, reference), d@, r),
            },
    {
        match self {
            ExpirationDate::Days(days) => {
                let base = match reference {
                    Some(r) => r,
                    None => *now,
                };
                add_whole_days(&base, days)
            },
            ExpirationDate::DateTime(dt) => Ok(*dt),
        }
    }

    /// What the days until expiration rest on at `now`: the days held, or the
    /// whole seconds until the datetime. A datetime becomes the reference
    /// datetime; a number of days leaves it as it is.
    pub fn time_remaining(&self, now: &UtcDateTime, reference: &mut Option<UtcDateTime>) -> (r: TimeRemaining)
        ensures
            self matches ExpirationDate::Days(d) ==> (r matches TimeRemaining::Days(x) && x@ == d@
                && *final(reference) == *old(reference)),
            self matches ExpirationDate::DateTime(dt) ==> {
                &&& *final(reference) == Some(*dt)
                &&& spec_seconds_between(dt@, now@) > 0 ==> r == TimeRemaining::Seconds(
                    spec_seconds_between(dt@, now@) as i64,
                )
                &&& spec_seconds_between(dt@, now@) <= 0 ==> r is Expired
            },
    {
        match self {
            ExpirationDate::Days(days) => TimeRemaining::Days(*days),
            ExpirationDate::DateTime(dt) => {
                *reference = Some(*dt);
                match dt.seconds_remaining(now) {
                    Some(seconds) => TimeRemaining::Seconds(seconds),
                    None => TimeRemaining::Expired,
                }
            },
        }
    }

    /// The instant the expiration resolves to (as
    /// [`ExpirationDate::get_date_with_base`]) while it is still after `now`;
    /// `None` once it is at or before `now`, when no time remains.
    pub fn resolve_if_pending(&self, now: &UtcDateTime, reference: Option<UtcDateTime>) -> (r: Result<
        Option<UtcDateTime>,
        ExpirationDateError,
    >)
        ensures
            match *self {
                ExpirationDate::DateTime(dt) => if instant_le(dt@, now@) {
                    r matches Ok(None)
                } else {
                    r matches Ok(Some(t)) && t@ == dt@
                },
                ExpirationDate::Days(d) => if dec_trunc(d@) > i64::MAX {
                    r matches Err(ExpirationDateError::PositiveError(_))
                } else {
                    match spec_add_days(base_instant(now@, reference), dec_trunc(d@) as int) {
                        Some(t) => if instant_le(t, now@) {
                            r matches Ok(None)
                        } else {
                            r matches Ok(Some(x)) && x@ == t
                        },
                        None => r matches Err(ExpirationDateError::ArithmeticOverflow(_)),
                    }
                },
            },
    {
        let target = self.get_date_with_base(now, reference)?;
        if target.is_at_or_before(now) {
            Ok(None)
        } else {
            Ok(Some(target))
        }
    }

    /// Resolves to an absolute instant at the given current time. With
    /// `use_fixed_time`, a number of days counts from 18:30:00 UTC of the current
    /// day (the reference datetime is not used); otherwise as
    /// [`ExpirationDate::get_date_with_base`].
    pub fn get_date_with_options_at(
        &self,
        use_fixed_time: bool,
        now: &UtcDateTime,
        reference: Option<UtcDateTime>,
    ) -> (r: Result<UtcDateTime, ExpirationDateError>)
        ensures
            match *self {
                ExpirationDate::DateTime(dt) => r matches Ok(t) && t@ == dt@,
                ExpirationDate::Days(d) => if use_fixed_time {
                    days_after_ok(fixed_time_base(now@), d@, r)
                } else {
                    days_after_ok(base_instant(now@, reference), d@, r)
                },
            },
    {
        if use_fixed_time {
            let today = now.day_number();
            match UtcDateTime::at_time_of_day(today, 18, 30, 0) {
                Some(base) => {
                    if let ExpirationDate::Days(days) = self {
                        return add_whole_days(&base, days);
                    }
                },
                None => {
                    return Err(ExpirationDateError::InvalidDateTime(String::from_str("Fixed time error")));
                },
            }
        }
        self.get_date_with_base(now, reference)
    }

    /// Resolves to an absolute instant, reading the current time when needed
    /// (see [`ExpirationDate::get_date_with_options_at`]).
    pub fn get_date_with_options(&self, use_fixed_time: bool, reference: Option<UtcDateTime>) -> (r: Result<
        UtcDateTime,
        ExpirationDateError,
    >)
        ensures
            self matches ExpirationDate::DateTime(dt) ==> r matches Ok(t) && t@ == dt@,
            self matches ExpirationDate::Days(d) ==> exists|now: Instant|
                #[trigger] days_resolved_at(d@, use_fixed_time, now, reference, r),
            (self is Days && !use_fixed_time && reference is Some) ==> days_after_ok(
                reference->0@,
                self->Days_0@,
                r,
            ),
    {
        let now = UtcDateTime::now();
        let r = self.get_date_with_options_at(use_fixed_time, &now, reference);
        proof {
            if let ExpirationDate::Days(d) = *self {
                let witness = now@;
                assert(days_resolved_at(d@, use_fixed_time, witness, reference, r));
            }
        }
        r
    }

    /// Resolves to an absolute instant from the reference datetime or the
    /// current time (see [`ExpirationDate::get_date_with_base`]).
    pub fn get_date(&self, reference: Option<UtcDateTime>) -> (r: Result<UtcDateTime, ExpirationDateError>)
        ensures
            self matches ExpirationDate::DateTime(dt) ==> r matches Ok(t) && t@ == dt@,
            self matches ExpirationDate::Days(d) ==> exists|now: Instant|
                #[trigger] days_resolved_at(d@, false, now, reference, r),
            (self is Days && reference is Some) ==> days_after_ok(reference->0@, self->Days_0@, r),
    {
        self.get_date_with_options(false, reference)
    }

    /// The expiration date written `YYYY-MM-DD`; a number of days counts from
    /// 18:30:00 UTC of the current day.
    pub fn get_date_string(&self) -> (r: Result<String, ExpirationDateError>)
        ensures
            self matches ExpirationDate::DateTime(dt) ==> r matches Ok(s) && s@ == format_text(
                dt@,
                "%Y-%m-%d"@,
            ),
            self matches ExpirationDate::Days(d) ==> exists|now: Instant|
                #[trigger] date_string_at(d@, now, r),
    {
        let now = UtcDateTime::now();
        let resolved = self.get_date_with_options_at(true, &now, None);
        let r = match resolved {
            Ok(date) => Ok(date.format("%Y-%m-%d")),
            Err(e) => Err(e),
        };
        proof {
            if let ExpirationDate::Days(d) = *self {
                assert(date_string_at(d@, now@, r));
            }
        }
        r
    }
}

/// The text shown for `days` days counted from `base`: the instant reached as
/// `%Y-%m-%d %H:%M:%S UTC`, or `Invalid Expiration` when it cannot be resolved.
pub open spec fn days_display_from(days: DecimalView, base: Instant, text: Seq<char>) -> bool {
    if dec_trunc(days) > i64::MAX {
        text == "Invalid Expiration"@
    } else {
        match spec_add_days(base, dec_trunc(days) as int) {
            Some(t) => text == format_text(t, "%Y-%m-%d %H:%M:%S UTC"@),
            None => text == "Invalid Expiration"@,
        }
    }
}

/// The text shown for `days` days at the current time `now`, counted from the
/// reference datetime when one is set.
pub open spec fn days_display_at(
    days: DecimalView,
    now: Instant,
    reference: Option<UtcDateTime>,
    text: Seq<char>,
) -> bool {
    days_display_from(days, base_instant(now, reference), text)
}

impl ExpirationDate {
    /// The text shown for the expiration: its resolved instant (see
    /// [`ExpirationDate::get_date`]) as `%Y-%m-%d %H:%M:%S UTC`, or `Invalid
    /// Expiration` when it cannot be resolved. Reads the current time.
    pub fn display_text(&self, reference: Option<UtcDateTime>) -> (r: String)
        ensures
            self matches ExpirationDate::DateTime(dt) ==> r@ == format_text(dt@, "%Y-%m-%d %H:%M:%S UTC"@),
            self matches ExpirationDate::Days(d) ==> exists|now: Instant|
                #[trigger] days_display_at(d@, now, reference, r@),
            (self is Days && reference is Some) ==> days_display_from(self->Days_0@, reference->0@, r@),
    {
        let now = UtcDateTime::now();
        let r = match self.get_date_with_options_at(false, &now, reference) {
            Ok(dt) => dt.format("%Y-%m-%d %H:%M:%S UTC"),
            Err(_) => String::from_str("Invalid Expiration"),
        };
        proof {
            reveal_strlit("Invalid Expiration");
            if let ExpirationDate::Days(d) = *self {
                assert(days_display_at(d@, now@, reference, r@));
            }
        }
        r
    }
}

impl Default for ExpirationDate {
    /// A year from the base instant: `Days(365.0)`.
    fn default() -> (r: ExpirationDate)
        ensures
            r matches ExpirationDate::Days(d) && d@ == (DecimalView { negative: false, mantissa: 3650, scale: 1 }),
    {
        ExpirationDate::Days(PositiveDecimal::days_in_a_year())
    }
}

} // verus!
