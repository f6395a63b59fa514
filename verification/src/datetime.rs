//! UTC instants as plain values: a Unix timestamp in seconds and the nanoseconds
//! within that second, in the range that `chrono::DateTime<Utc>` can hold.

use vstd::prelude::*;
use crate::calendar::{civil_from_days, lemma_civil_from_days, valid_date, CivilDate};
use crate::decimal::pow10;
use crate::parser::{chrono_parse_rfc3339, is_ascii_digit};

verus! {

/// First second that can be represented: -262143-01-01T00:00:00Z.
pub const MIN_TIMESTAMP: i64 = -8334601228800i64;

/// Last whole second that can be represented: +262142-12-31T23:59:59Z.
pub const MAX_TIMESTAMP: i64 = 8210266876799i64;

pub const SECONDS_PER_DAY: i64 = 86400i64;

pub const NANOS_PER_SECOND: u32 = 1_000_000_000u32;

/// Abstract value of a [`UtcDateTime`].
pub struct Instant {
    pub secs: int,
    pub nanos: int,
}

/// An instant is valid when its second lies in the supported range and its
/// nanoseconds are below one second, or below two seconds on the last second
/// of a minute (a leap second).
pub open spec fn valid_instant(t: Instant) -> bool {
    &&& MIN_TIMESTAMP <= t.secs <= MAX_TIMESTAMP
    &&& 0 <= t.nanos
    &&& (t.nanos < NANOS_PER_SECOND || (t.nanos < 2 * NANOS_PER_SECOND && t.secs % 60 == 59))
}

/// Chronological order of instants.
pub open spec fn instant_le(a: Instant, b: Instant) -> bool {
    a.secs < b.secs || (a.secs == b.secs && a.nanos <= b.nanos)
}

/// Remainder of `a` divided by a positive `b`, in `0..b`.
pub(crate) fn euclid_rem(a: i64, b: i64) -> (r: i64)
    requires
        b > 0,
    ensures
        r == a % b,
{
    match a.checked_rem_euclid(b) {
        Some(r) => r,
        None => 0,
    }
}

/// Quotient of `a` divided by a positive `b`, rounded towards negative infinity.
pub(crate) fn euclid_div(a: i64, b: i64) -> (q: i64)
    requires
        b > 0,
    ensures
        q == a / b,
{
    assert(i64::MIN <= a / b <= i64::MAX) by (nonlinear_arith)
        requires
            b > 0,
            i64::MIN <= a <= i64::MAX,
    {
        if a >= 0 {
            assert(a / b <= a);
        } else {
            assert(a / b >= a);
        }
    }
    match a.checked_div_euclid(b) {
        Some(q) => q,
        None => 0,
    }
}

/// A point in time in UTC.
#[derive(Clone, Copy, Debug)]
pub struct UtcDateTime {
    pub(crate) secs: i64,
    pub(crate) nanos: u32,
}

impl View for UtcDateTime {
    type V = Instant;

    closed spec fn view(&self) -> Instant {
        Instant { secs: self.secs as int, nanos: self.nanos as int }
    }
}

impl UtcDateTime {
    #[verifier::type_invariant]
    spec fn well_formed(self) -> bool {
        valid_instant(self@)
    }

    /// Builds the instant `secs` seconds and `nanos` nanoseconds after the Unix
    /// epoch; `None` for the values that `chrono`'s `DateTime::from_timestamp`
    /// refuses (out of range, or a second's worth of nanoseconds or more outside
    /// a leap second).
    pub fn from_timestamp(secs: i64, nanos: u32) -> (r: Option<UtcDateTime>)
        ensures
            r is Some <==> valid_instant(Instant { secs: secs as int, nanos: nanos as int }),
            r matches Some(t) ==> t@ == (Instant { secs: secs as int, nanos: nanos as int }),
    {
        let second_of_minute = euclid_rem(secs, 60);
        if MIN_TIMESTAMP <= secs && secs <= MAX_TIMESTAMP
            && (nanos < NANOS_PER_SECOND || (nanos < 2 * NANOS_PER_SECOND && second_of_minute == 59)) {
            Some(UtcDateTime { secs, nanos })
        } else {
            None
        }
    }

    /// Nanoseconds past the last whole second (at least one second during a leap second).
    pub fn subsec_nanos(&self) -> (r: u32)
        ensures
            r == self@.nanos,
            valid_instant(self@),
    {
        proof {
            use_type_invariant(self);
        }
        self.nanos
    }

    /// Seconds since the Unix epoch.
    pub fn timestamp(&self) -> (r: i64)
        ensures
            r == self@.secs,
            valid_instant(self@),
    {
        proof {
            use_type_invariant(self);
        }
        self.secs
    }
}

/// Whole seconds elapsed from `start` to `end`, truncated towards zero, counting a
/// leap second the way `chrono` does when subtracting times of day.
pub open spec fn spec_seconds_between(end: Instant, start: Instant) -> int {
    let sod_end = end.secs % 86400;
    let sod_start = start.secs % 86400;
    let adjust: int = if sod_end > sod_start && start.nanos >= 1_000_000_000 {
        1
    } else if sod_end < sod_start && end.nanos >= 1_000_000_000 {
        -1
    } else {
        0
    };
    let frac = end.nanos - start.nanos;
    let secs = end.secs - start.secs + adjust + frac / 1_000_000_000;
    let nanos = frac % 1_000_000_000;
    if secs < 0 && nanos > 0 {
        secs + 1
    } else {
        secs
    }
}

/// `a / b` rounded towards zero.
pub open spec fn trunc_div(a: int, b: int) -> int {
    if a >= 0 {
        a / b
    } else {
        -((-a) / b)
    }
}

/// Whole days elapsed from `start` to `end`, truncated towards zero.
pub open spec fn spec_days_between(end: Instant, start: Instant) -> int {
    trunc_div(spec_seconds_between(end, start), 86400)
}

/// The instant reached by adding `days` whole days, where a leap second is
/// first folded into the preceding second (adding) or the following one
/// (subtracting); `None` when the result leaves the supported range.
pub open spec fn spec_add_days(t: Instant, days: int) -> Option<Instant> {
    let (secs, nanos) = if t.nanos >= 1_000_000_000 && days > 0 {
        (t.secs, t.nanos - 1_000_000_000)
    } else if t.nanos >= 1_000_000_000 && days < 0 {
        (t.secs + 1, t.nanos - 1_000_000_000)
    } else {
        (t.secs, t.nanos)
    };
    let moved = secs + days * 86400;
    if MIN_TIMESTAMP <= moved <= MAX_TIMESTAMP {
        Some(Instant { secs: moved, nanos })
    } else {
        None
    }
}

/// The instant at `hour:minute:second` (no fraction) on the day that starts
/// `day` days after the Unix epoch; `None` when the time of day is not a valid
/// one or the day is out of range.
pub open spec fn spec_at_time_of_day(day: int, hour: int, minute: int, second: int) -> Option<Instant> {
    let secs = day * 86400 + hour * 3600 + minute * 60 + second;
    if 0 <= hour < 24 && 0 <= minute < 60 && 0 <= second < 60
        && MIN_TIMESTAMP / 86400 <= day <= MAX_TIMESTAMP / 86400 {
        Some(Instant { secs, nanos: 0 })
    } else {
        None
    }
}

impl UtcDateTime {
    /// `chrono`'s `end.signed_duration_since(start).num_seconds()`, with `self` as `end`.
    pub fn seconds_since(&self, start: &UtcDateTime) -> (r: i64)
        ensures
            r == spec_seconds_between(self@, start@),
    {
        proof {
            use_type_invariant(self);
            use_type_invariant(start);
        }
        let sod_end = euclid_rem(self.secs, SECONDS_PER_DAY);
        let sod_start = euclid_rem(start.secs, SECONDS_PER_DAY);
        let adjust: i64 = if sod_end > sod_start && start.nanos >= NANOS_PER_SECOND {
            1
        } else if sod_end < sod_start && self.nanos >= NANOS_PER_SECOND {
            -1
        } else {
            0
        };
        let frac: i64 = self.nanos as i64 - start.nanos as i64;
        let secs = self.secs - start.secs + adjust + euclid_div(frac, 1_000_000_000);
        let nanos = euclid_rem(frac, 1_000_000_000);
        if secs < 0 && nanos > 0 {
            secs + 1
        } else {
            secs
        }
    }

    /// Whole seconds from `now` until `self` when `self` is still ahead by at
    /// least one whole second; `None` otherwise (the remaining time counts as zero).
    pub fn seconds_remaining(&self, now: &UtcDateTime) -> (r: Option<i64>)
        ensures
            spec_seconds_between(self@, now@) > 0 ==> r == Some(spec_seconds_between(self@, now@) as i64),
            spec_seconds_between(self@, now@) <= 0 ==> r is None,
    {
        let secs = self.seconds_since(now);
        if secs <= 0 {
            None
        } else {
            Some(secs)
        }
    }

    /// Whole days from `start` to `self`, truncated towards zero.
    pub fn days_since(&self, start: &UtcDateTime) -> (r: i64)
        ensures
            r == spec_days_between(self@, start@),
    {
        let secs = self.seconds_since(start);
        proof {
            use_type_invariant(self);
            use_type_invariant(start);
            assert(-20_000_000_000_000 <= secs <= 20_000_000_000_000);
        }
        if secs >= 0 {
            secs / SECONDS_PER_DAY
        } else {
            -((-secs) / SECONDS_PER_DAY)
        }
    }

    /// Whether `self` is at or before `other`.
    pub fn is_at_or_before(&self, other: &UtcDateTime) -> (r: bool)
        ensures
            r == instant_le(self@, other@),
    {
        self.secs < other.secs || (self.secs == other.secs && self.nanos <= other.nanos)
    }

    /// Adds `days` whole days (negative to go back), as `chrono` adds a
    /// `TimeDelta` of whole days; `None` when the result is out of range.
    pub fn checked_add_days(&self, days: i64) -> (r: Option<UtcDateTime>)
        ensures
            r is Some <==> spec_add_days(self@, days as int) is Some,
            r matches Some(t) ==> Some(t@) == spec_add_days(self@, days as int),
    {
        proof {
            use_type_invariant(self);
        }
        if days > 200_000_000 || days < -200_000_000 {
            return None;
        }
        let (secs, nanos) = if self.nanos >= NANOS_PER_SECOND && days > 0 {
            (self.secs, self.nanos - NANOS_PER_SECOND)
        } else if self.nanos >= NANOS_PER_SECOND && days < 0 {
            (self.secs + 1, self.nanos - NANOS_PER_SECOND)
        } else {
            (self.secs, self.nanos)
        };
        let moved = secs + days * SECONDS_PER_DAY;
        if MIN_TIMESTAMP <= moved && moved <= MAX_TIMESTAMP {
            proof {
                assert(nanos < NANOS_PER_SECOND || (nanos < 2 * NANOS_PER_SECOND && moved % 60 == 59)) by {
                    if nanos >= NANOS_PER_SECOND {
                        assert(days == 0);
                    }
                }
            }
            Some(UtcDateTime { secs: moved, nanos })
        } else {
            None
        }
    }

    /// Days since the Unix epoch of the calendar day (in UTC) that holds `self`.
    pub fn day_number(&self) -> (r: i64)
        ensures
            r == self@.secs / 86400,
            MIN_TIMESTAMP / 86400 <= r <= MAX_TIMESTAMP / 86400,
    {
        proof {
            use_type_invariant(self);
        }
        euclid_div(self.secs, SECONDS_PER_DAY)
    }

    /// `hour:minute:second` on the day `day` days after the Unix epoch, as
    /// `NaiveDate::and_hms_opt` followed by reading the result as UTC.
    pub fn at_time_of_day(day: i64, hour: u32, minute: u32, second: u32) -> (r: Option<UtcDateTime>)
        ensures
            r is Some <==> spec_at_time_of_day(day as int, hour as int, minute as int, second as int) is Some,
            r matches Some(t) ==> Some(t@) == spec_at_time_of_day(day as int, hour as int, minute as int, second as int),
    {
        if hour < 24 && minute < 60 && second < 60 && MIN_TIMESTAMP / SECONDS_PER_DAY <= day
            && day <= MAX_TIMESTAMP / SECONDS_PER_DAY {
            let secs = day * SECONDS_PER_DAY + hour as i64 * 3600 + minute as i64 * 60 + second as i64;
            Some(UtcDateTime { secs, nanos: 0 })
        } else {
            None
        }
    }
}


/// The calendar date (proleptic Gregorian, UTC) of an instant: that of the day
/// number `secs / 86400`, rounded towards negative infinity.
pub open spec fn date_of(t: Instant) -> CivilDate {
    civil_from_days(t.secs / 86400)
}

impl UtcDateTime {
    /// `Datelike::year` of the `chrono::DateTime<Utc>` at this instant: the year
    /// of its date in the proleptic Gregorian calendar.
    #[verifier::external_body]
    pub(crate) fn year(&self) -> (r: i32)
        ensures
            r == date_of(self@).year,
    {
        chrono::Datelike::year(&chrono::DateTime::from_timestamp(self.secs, self.nanos).expect("valid instant"))
    }

    /// `Datelike::month` of the `chrono::DateTime<Utc>` at this instant: the
    /// month (1 to 12) of its date in the proleptic Gregorian calendar.
    #[verifier::external_body]
    pub(crate) fn month(&self) -> (r: u32)
        ensures
            r == date_of(self@).month,
    {
        chrono::Datelike::month(&chrono::DateTime::from_timestamp(self.secs, self.nanos).expect("valid instant"))
    }

    /// `Datelike::day` of the `chrono::DateTime<Utc>` at this instant: the day
    /// of the month of its date in the proleptic Gregorian calendar.
    #[verifier::external_body]
    pub(crate) fn day(&self) -> (r: u32)
        ensures
            r == date_of(self@).day,
    {
        chrono::Datelike::day(&chrono::DateTime::from_timestamp(self.secs, self.nanos).expect("valid instant"))
    }
}


/// The character of a decimal digit.
pub open spec fn digit_char(d: int) -> char {
    ((48 + d) as u32) as char
}

/// The decimal digits of `n`, without leading zeros.
pub open spec fn decimal_text(n: nat) -> Seq<char>
    decreases n,
{
    if n < 10 {
        seq![digit_char(n as int)]
    } else {
        decimal_text(n / 10).push(digit_char((n % 10) as int))
    }
}

/// The decimal digits of `n`, zero-padded on the left to at least `width` digits.
pub open spec fn zero_padded(n: nat, width: nat) -> Seq<char> {
    let digits = decimal_text(n);
    if digits.len() >= width {
        digits
    } else {
        Seq::new((width - digits.len()) as nat, |i: int| '0') + digits
    }
}

/// `%Y`: the year zero-padded to four digits, with a sign outside 0 to 9999.
pub open spec fn year_text(y: int) -> Seq<char> {
    if 0 <= y <= 9999 {
        zero_padded(y as nat, 4)
    } else if y < 0 {
        seq!['-'] + zero_padded((-y) as nat, 4)
    } else {
        seq!['+'] + zero_padded(y as nat, 4)
    }
}

/// `%Y-%m-%d` of a date.
pub open spec fn date_text(c: CivilDate) -> Seq<char> {
    year_text(c.year) + seq!['-'] + zero_padded(c.month as nat, 2) + seq!['-'] + zero_padded(c.day as nat, 2)
}

/// `%H:%M:%S` of an instant in UTC; a leap second is written as second 60.
pub open spec fn time_text(t: Instant) -> Seq<char> {
    let second_of_day: int = t.secs % 86400;
    let second: int = second_of_day % 60 + if t.nanos >= 1_000_000_000 {
        1int
    } else {
        0int
    };
    zero_padded((second_of_day / 3600) as nat, 2) + seq![':'] + zero_padded(((second_of_day % 3600) / 60) as nat, 2)
        + seq![':'] + zero_padded(second as nat, 2)
}

/// The text that `chrono` writes for an instant with one of the formats of
/// [`supported_format`]: `%Y-%m-%d`, `%Y-%m-%d %H:%M:%S UTC` or `%Y-%m-%dT%H:%M:%SZ`.
pub open spec fn format_text(t: Instant, fmt: Seq<char>) -> Seq<char> {
    if fmt == "%Y-%m-%d"@ {
        date_text(date_of(t))
    } else if fmt == "%Y-%m-%d %H:%M:%S UTC"@ {
        date_text(date_of(t)) + seq![' '] + time_text(t) + seq![' ', 'U', 'T', 'C']
    } else {
        date_text(date_of(t)) + seq!['T'] + time_text(t) + seq!['Z']
    }
}

proof fn lemma_decimal_text_length(n: nat, k: nat)
    requires
        k >= 1,
        n < pow10(k),
    ensures
        decimal_text(n).len() <= k,
    decreases n,
{
    if n >= 10 {
        assert(k >= 2) by {
            if k == 1 {
                reveal_with_fuel(pow10, 2);
            }
        }
        assert(n / 10 < pow10((k - 1) as nat)) by (nonlinear_arith)
            requires
                n < pow10(k),
                pow10(k) == 10 * pow10((k - 1) as nat),
        ;
        lemma_decimal_text_length(n / 10, (k - 1) as nat);
    }
}

/// A date of a year from 0 to 9999 is written `YYYY-MM-DD`: ten characters.
pub proof fn lemma_date_text_length(c: CivilDate)
    requires
        valid_date(c),
        0 <= c.year <= 9999,
    ensures
        date_text(c).len() == 10,
{
    reveal_with_fuel(pow10, 5);
    lemma_decimal_text_length(c.year as nat, 4);
    lemma_decimal_text_length(c.month as nat, 2);
    lemma_decimal_text_length(c.day as nat, 2);
}

/// Every character of `s` is an ASCII digit.
pub open spec fn all_digits(s: Seq<char>) -> bool {
    forall|i: int| 0 <= i < s.len() ==> is_ascii_digit(#[trigger] s[i])
}

proof fn lemma_decimal_text_digits(n: nat)
    ensures
        all_digits(decimal_text(n)),
        decimal_text(n).len() >= 1,
    decreases n,
{
    if n >= 10 {
        lemma_decimal_text_digits(n / 10);
        let prefix = decimal_text(n / 10);
        let full = decimal_text(n);
        assert forall|i: int| 0 <= i < full.len() implies is_ascii_digit(#[trigger] full[i]) by {
            if i < prefix.len() {
                assert(full[i] == prefix[i]);
            }
        }
    }
}

/// A number below `10^width` is written with exactly `width` digits.
proof fn lemma_zero_padded(n: nat, width: nat)
    requires
        width >= 1,
        n < pow10(width),
    ensures
        zero_padded(n, width).len() == width,
        all_digits(zero_padded(n, width)),
{
    lemma_decimal_text_length(n, width);
    lemma_decimal_text_digits(n);
    let digits = decimal_text(n);
    let padded = zero_padded(n, width);
    if digits.len() < width {
        let zeros = Seq::new((width - digits.len()) as nat, |i: int| '0');
        assert(padded == zeros + digits);
        assert forall|i: int| 0 <= i < padded.len() implies is_ascii_digit(#[trigger] padded[i]) by {
            if i < zeros.len() {
                assert(padded[i] == zeros[i]);
            } else {
                assert(padded[i] == digits[i - zeros.len()]);
            }
        }
    }
}

/// `%Y-%m-%d %H:%M:%S` of an instant in UTC.
pub open spec fn date_time_text(t: Instant) -> Seq<char> {
    date_text(date_of(t)) + seq![' '] + time_text(t)
}

/// The instant at the start of the (possibly leap) second that holds `t`.
pub open spec fn whole_second(t: Instant) -> Instant {
    Instant {
        secs: t.secs,
        nanos: if t.nanos >= 1_000_000_000 {
            1_000_000_000
        } else {
            0
        },
    }
}

/// For a year from 0 to 9999, `%Y-%m-%d %H:%M:%S UTC` is nineteen characters
/// of date and time that start and end with a digit, then ` UTC`; the same
/// text is written for the whole second.
pub proof fn lemma_display_text_shape(t: Instant)
    requires
        valid_instant(t),
        0 <= date_of(t).year <= 9999,
    ensures
        format_text(t, "%Y-%m-%d %H:%M:%S UTC"@) == date_time_text(t) + seq![' ', 'U', 'T', 'C'],
        date_time_text(t).len() == 19,
        is_ascii_digit(date_time_text(t)[0]),
        is_ascii_digit(date_time_text(t)[18]),
        date_time_text(whole_second(t)) == date_time_text(t),
        valid_instant(whole_second(t)),
        whole_second(t).nanos % 1_000_000_000 == 0,
        date_of(whole_second(t)) == date_of(t),
{
    reveal_strlit("%Y-%m-%d");
    reveal_strlit("%Y-%m-%d %H:%M:%S UTC");
    assert("%Y-%m-%d %H:%M:%S UTC"@ != "%Y-%m-%d"@) by {
        assert("%Y-%m-%d %H:%M:%S UTC"@.len() != "%Y-%m-%d"@.len());
    }
    reveal_with_fuel(pow10, 5);
    let c = date_of(t);
    lemma_civil_from_days(t.secs / 86400);
    lemma_date_text_length(c);
    lemma_zero_padded(c.year as nat, 4);
    let sod: int = t.secs % 86400;
    let second: int = sod % 60 + if t.nanos >= 1_000_000_000 {
        1int
    } else {
        0int
    };
    lemma_zero_padded((sod / 3600) as nat, 2);
    lemma_zero_padded(((sod % 3600) / 60) as nat, 2);
    lemma_zero_padded(second as nat, 2);
    let y = zero_padded(c.year as nat, 4);
    let d = date_text(c);
    assert(d[0] == y[0]);
    let time = time_text(t);
    assert(time.len() == 8);
    let sec_text = zero_padded(second as nat, 2);
    assert(time[7] == sec_text[1]);
    let dt = date_time_text(t);
    assert(dt[0] == d[0]);
    assert(dt[18] == time[7]);
}

/// A time of day is written with a `:` after the hour.
pub proof fn lemma_time_text_colon(t: Instant)
    ensures
        time_text(t)[zero_padded(((t.secs % 86400) / 3600) as nat, 2).len() as int] == ':',
        zero_padded(((t.secs % 86400) / 3600) as nat, 2).len() < time_text(t).len(),
{
}

/// The text of a date and a time holds a `:`.
pub proof fn lemma_date_time_text_has_colon(t: Instant, fmt: Seq<char>)
    requires
        fmt == "%Y-%m-%d %H:%M:%S UTC"@ || fmt == "%Y-%m-%dT%H:%M:%SZ"@,
    ensures
        format_text(t, fmt).contains(':'),
{
    reveal_strlit("%Y-%m-%d");
    reveal_strlit("%Y-%m-%d %H:%M:%S UTC");
    reveal_strlit("%Y-%m-%dT%H:%M:%SZ");
    lemma_time_text_colon(t);
    let d = date_text(date_of(t));
    let sep = if fmt == "%Y-%m-%d %H:%M:%S UTC"@ {
        seq![' ']
    } else {
        seq!['T']
    };
    let tail = if fmt == "%Y-%m-%d %H:%M:%S UTC"@ {
        seq![' ', 'U', 'T', 'C']
    } else {
        seq!['Z']
    };
    let time = time_text(t);
    let k: int = zero_padded(((t.secs % 86400) / 3600) as nat, 2).len() as int;
    assert(fmt != "%Y-%m-%d"@) by {
        assert(fmt.len() != "%Y-%m-%d"@.len());
    }
    assert(format_text(t, fmt) == (d + sep) + time + tail);
    let front = d + sep;
    assert((front + time)[front.len() + k] == time[k]);
    assert(((front + time) + tail)[front.len() + k] == (front + time)[front.len() + k]);
    assert(format_text(t, fmt)[front.len() + k] == ':');
}

/// The formats this library writes instants with: a date (`%Y-%m-%d`), a date
/// and time marked UTC (`%Y-%m-%d %H:%M:%S UTC`), and RFC 3339 to the second
/// (`%Y-%m-%dT%H:%M:%SZ`).
pub open spec fn supported_format(fmt: Seq<char>) -> bool {
    fmt == "%Y-%m-%d"@ || fmt == "%Y-%m-%d %H:%M:%S UTC"@ || fmt == "%Y-%m-%dT%H:%M:%SZ"@
}

impl UtcDateTime {
    /// The current instant, from `chrono::Utc::now()`. Nothing is claimed of the
    /// value beyond its being a valid instant.
    #[verifier::external_body]
    pub(crate) fn now() -> UtcDateTime {
        let now = chrono::Utc::now();
        UtcDateTime { secs: now.timestamp(), nanos: now.timestamp_subsec_nanos() }
    }

    /// `DateTime::format(fmt).to_string()` of `chrono` at this instant, for the
    /// formats of [`supported_format`]: the year zero-padded to four digits (a
    /// sign before years outside 0 to 9999), the other fields to two. RFC 3339 to the
    /// second, for a whole second (`:60` in a leap second) of a four-digit
    /// year, is read back by `DateTime::parse_from_rfc3339` as the same instant.
    #[verifier::external_body]
    pub(crate) fn format(&self, fmt: &str) -> (r: String)
        requires
            supported_format(fmt@),
        ensures
            r@ == format_text(self@, fmt@),
            (fmt@ == "%Y-%m-%dT%H:%M:%SZ"@ && self@.nanos % 1_000_000_000 == 0 && 0 <= date_of(self@).year <= 9999)
                ==> chrono_parse_rfc3339(r@) == Some(self@),
    {
        chrono::DateTime::from_timestamp(self.secs, self.nanos).expect("valid instant").format(fmt).to_string()
    }
}

} // verus!
