//! Parsing an expiration from text.
//!
//! The accepted shapes are tried in a fixed order: a non-negative number of
//! days; RFC 3339; a date and time with a time zone name (which `chrono`
//! never accepts, as it gives no offset); a date and time ending in ` UTC`; RFC 3339 without seconds; `YYYYMMDD`; and the date-only formats
//! `%Y-%m-%d`, `%d-%m-%Y`, `%d %b %Y`, `%d-%b-%Y`, `%d %B %Y`, `%d-%B-%Y`
//! (month names in any case). The calendar grammars themselves are `chrono`'s.

use vstd::prelude::*;
use crate::calendar::{days_from_civil, lemma_days_from_civil_increasing, valid_date, CivilDate};
use crate::datetime::{
    date_of, date_time_text, format_text, lemma_date_time_text_has_colon, lemma_display_text_shape, spec_at_time_of_day,
    valid_instant, whole_second, Instant, UtcDateTime,
};
use crate::decimal::{pow10, positive_from_str, DecimalView, PositiveDecimal};
use crate::error::ExpirationDateError;
use crate::expiration::ExpirationDate;

verus! {

/// Days from 0001-01-01 (day 1) to 1970-01-01, as `chrono` counts days from the common era.
pub const UNIX_EPOCH_DAY_FROM_CE: i64 = 719163i64;

/// First day (counted from the common era) of the supported date range.
pub const MIN_DAY_FROM_CE: i64 = -95746129i64;

/// Last day (counted from the common era) of the supported date range.
pub const MAX_DAY_FROM_CE: i64 = 95745399i64;

/// What `DateTime::parse_from_rfc3339` gives for `s`, as a UTC instant.
pub uninterp spec fn chrono_parse_rfc3339(s: Seq<char>) -> Option<Instant>;


/// What `NaiveDateTime::parse_from_str(s, fmt)` gives, read as UTC.
pub uninterp spec fn chrono_parse_naive_datetime(s: Seq<char>, fmt: Seq<char>) -> Option<Instant>;

/// What `NaiveDate::parse_from_str(s, fmt)` gives, as its day counted from the common era.
pub uninterp spec fn chrono_parse_naive_date(s: Seq<char>, fmt: Seq<char>) -> Option<int>;


/// What `str::to_lowercase` gives for `s`.
pub uninterp spec fn std_to_lowercase(s: Seq<char>) -> Seq<char>;

/// What `str::trim` gives for `s`.
pub uninterp spec fn std_trim(s: Seq<char>) -> Seq<char>;

/// First year that `chrono` can represent.
pub const MIN_YEAR: i32 = -262143i32;

/// Last year that `chrono` can represent.
pub const MAX_YEAR: i32 = 262142i32;

/// A date of the calendar whose year `chrono` can represent.
pub open spec fn supported_date(c: CivilDate) -> bool {
    MIN_YEAR <= c.year <= MAX_YEAR && valid_date(c)
}

/// The day of a date counted from the common era (0001-01-01 is day 1).
pub open spec fn day_from_ce(c: CivilDate) -> int {
    days_from_civil(c) + UNIX_EPOCH_DAY_FROM_CE
}

/// A day (counted from the common era) that `chrono` can represent.
pub open spec fn supported_day(ce_day: int) -> bool {
    MIN_DAY_FROM_CE <= ce_day <= MAX_DAY_FROM_CE
}

/// `DateTime::parse_from_rfc3339`, converted to UTC. Its text starts with
/// nineteen ASCII characters (`YYYY-MM-DDTHH:MM:SS`), followed by a fraction
/// (`.`) or an offset (`Z`, `z`, `+`, `-` or `−`), so a space there is refused.
/// The text that `chrono` writes with `%Y-%m-%dT%H:%M:%SZ` for a whole second
/// (`:60` in a leap second) of a four-digit year is read back as that instant.
#[verifier::external_body]
fn parse_rfc3339(s: &str) -> (r: Result<UtcDateTime, chrono::ParseError>)
    ensures
        r is Ok <==> chrono_parse_rfc3339(s@) is Some,
        r matches Ok(t) ==> Some(t@) == chrono_parse_rfc3339(s@),
        (s@.len() > 19 && s@[19] == ' ') ==> r is Err,
        forall|w: Instant| #[trigger] rfc3339_form(s@, w) ==> r is Ok,
        forall|w: Instant| #[trigger] rfc3339_form(s@, w) ==> (r matches Ok(x) ==> x@ == w),
{
    match chrono::DateTime::parse_from_rfc3339(s) {
        Ok(dt) => Ok(UtcDateTime { secs: dt.timestamp(), nanos: dt.timestamp_subsec_nanos() }),
        Err(e) => Err(e),
    }
}

/// `DateTime::parse_from_str(s, fmt)`, converted to UTC, for the two formats
/// tried on dates with a time zone. Neither format holds an offset (`%Z` only
/// skips a zone name, `UTC` is literal text), and `chrono` builds a
/// `DateTime<FixedOffset>` only from a parsed offset or timestamp, so the call
/// never succeeds.
#[verifier::external_body]
fn parse_with_offset(s: &str, fmt: &str) -> (r: Option<UtcDateTime>)
    requires
        fmt@ == "%Y-%m-%d %H:%M:%S %Z"@ || fmt@ == "%Y-%m-%d %H:%M:%S UTC"@,
    ensures
        r is None,
{
    match chrono::DateTime::parse_from_str(s, fmt) {
        Ok(dt) => Some(UtcDateTime { secs: dt.timestamp(), nanos: dt.timestamp_subsec_nanos() }),
        Err(_) => None,
    }
}

/// `NaiveDateTime::parse_from_str(s, fmt)`, read as a UTC datetime. The text
/// that `chrono` writes with `%Y-%m-%d %H:%M:%S` for a whole second (`:60` in a
/// leap second) of a four-digit year is read back as that instant.
#[verifier::external_body]
fn parse_naive_datetime(s: &str, fmt: &str) -> (r: Option<UtcDateTime>)
    ensures
        r is Some <==> chrono_parse_naive_datetime(s@, fmt@) is Some,
        r matches Some(t) ==> Some(t@) == chrono_parse_naive_datetime(s@, fmt@),
        forall|w: Instant|
            (fmt@ == "%Y-%m-%d %H:%M:%S"@ && valid_instant(w) && w.nanos % 1_000_000_000 == 0
                && 0 <= date_of(w).year <= 9999 && s@ == #[trigger] date_time_text(w)) ==> (r is Some),
        forall|w: Instant|
            (fmt@ == "%Y-%m-%d %H:%M:%S"@ && valid_instant(w) && w.nanos % 1_000_000_000 == 0
                && 0 <= date_of(w).year <= 9999 && s@ == #[trigger] date_time_text(w)) ==> (r matches Some(x)
                ==> x@ == w),
{
    match chrono::NaiveDateTime::parse_from_str(s, fmt) {
        Ok(dt) => {
            let utc = dt.and_utc();
            Some(UtcDateTime { secs: utc.timestamp(), nanos: utc.timestamp_subsec_nanos() })
        },
        Err(_) => None,
    }
}

/// Reads RFC 3339 text (the `datetime` entry of the serialized form) as a UTC instant.
pub fn parse_rfc3339_text(s: &str) -> (r: Result<UtcDateTime, chrono::ParseError>)
    ensures
        r is Ok <==> chrono_parse_rfc3339(s@) is Some,
        r matches Ok(t) ==> Some(t@) == chrono_parse_rfc3339(s@),
{
    parse_rfc3339(s)
}

/// `NaiveDate::parse_from_str(s, fmt)`, as the day counted from the common
/// era; a date `chrono` returns lies in its supported range.
#[verifier::external_body]
fn parse_naive_date(s: &str, fmt: &str) -> (r: Option<i32>)
    ensures
        r is Some <==> chrono_parse_naive_date(s@, fmt@) is Some,
        r matches Some(d) ==> Some(d as int) == chrono_parse_naive_date(s@, fmt@) && supported_day(d as int),
{
    match chrono::NaiveDate::parse_from_str(s, fmt) {
        Ok(date) => Some(chrono::Datelike::num_days_from_ce(&date)),
        Err(_) => None,
    }
}

/// `NaiveDate::from_ymd_opt(year, month, day)`: the date when it exists in the
/// calendar and `chrono` can represent its year, as its day counted from the
/// common era; `None` otherwise.
#[verifier::external_body]
fn date_from_ymd(year: i32, month: u32, day: u32) -> (r: Option<i32>)
    ensures
        r is Some <==> supported_date(CivilDate { year: year as int, month: month as int, day: day as int }),
        r matches Some(d) ==> d == day_from_ce(CivilDate { year: year as int, month: month as int, day: day as int }),
{
    match chrono::NaiveDate::from_ymd_opt(year, month, day) {
        Some(date) => Some(chrono::Datelike::num_days_from_ce(&date)),
        None => None,
    }
}

/// The days of the dates `chrono` can represent are the days of its range.
proof fn lemma_supported_date_day(c: CivilDate)
    requires
        supported_date(c),
    ensures
        supported_day(day_from_ce(c)),
{
    let first = CivilDate { year: MIN_YEAR as int, month: 1, day: 1 };
    let last = CivilDate { year: MAX_YEAR as int, month: 12, day: 31 };
    assert(day_from_ce(first) == MIN_DAY_FROM_CE);
    assert(day_from_ce(last) == MAX_DAY_FROM_CE);
    if c != first {
        lemma_days_from_civil_increasing(first, c);
    }
    if c != last {
        lemma_days_from_civil_increasing(c, last);
    }
}

/// `str::to_lowercase`.
#[verifier::external_body]
fn to_lowercase(s: &str) -> (r: String)
    ensures
        r@ == std_to_lowercase(s@),
{
    s.to_lowercase()
}

/// `str::trim`, copied into a `String`: leading and trailing whitespace
/// removed, so text that starts and ends with an ASCII digit stays as it is.
#[verifier::external_body]
fn trim(s: &str) -> (r: String)
    ensures
        r@ == std_trim(s@),
        (s@.len() > 0 && is_ascii_digit(s@[0]) && is_ascii_digit(s@[s@.len() - 1])) ==> r@ == s@,
{
    s.trim().to_string()
}


/// `s` holds `pat` as a contiguous part.
pub open spec fn contains_seq(s: Seq<char>, pat: Seq<char>) -> bool {
    exists|i: int| 0 <= i && i + pat.len() <= s.len() && #[trigger] s.subrange(i, i + pat.len()) == pat
}

/// How many times `c` occurs in `s`.
pub open spec fn count_char(s: Seq<char>, c: char) -> nat
    decreases s.len(),
{
    if s.len() == 0 {
        0
    } else {
        count_char(s.drop_last(), c) + if s.last() == c {
            1nat
        } else {
            0nat
        }
    }
}

/// `s` with every trailing occurrence of `suffix` removed, as `str::trim_end_matches`.
pub open spec fn strip_suffix_repeatedly(s: Seq<char>, suffix: Seq<char>) -> Seq<char>
    decreases s.len(),
{
    if suffix.len() > 0 && s.len() >= suffix.len() && s.subrange(s.len() - suffix.len(), s.len() as int)
        == suffix {
        strip_suffix_repeatedly(s.subrange(0, s.len() - suffix.len()), suffix)
    } else {
        s
    }
}

pub open spec fn is_ascii_digit(c: char) -> bool {
    '0' <= c && c <= '9'
}

/// The number written by a sequence of decimal digits.
pub open spec fn digits_value(s: Seq<char>) -> nat
    decreases s.len(),
{
    if s.len() == 0 {
        0
    } else {
        digits_value(s.drop_last()) * 10 + ((s.last() as nat) - ('0' as nat)) as nat
    }
}

/// Text that may be a date and time marked ` UTC`: it holds ` UTC` and a `:`.
pub open spec fn utc_marked(s: Seq<char>) -> bool {
    contains_seq(s, " UTC"@) && s.contains(':')
}

/// Text that may be RFC 3339 without seconds: it holds a `T` and exactly one `:`.
pub open spec fn minute_precision(s: Seq<char>) -> bool {
    s.contains('T') && count_char(s, ':') == 1
}

/// Eight ASCII digits, `YYYYMMDD`.
pub open spec fn compact_date(s: Seq<char>) -> bool {
    s.len() == 8 && forall|i: int| 0 <= i < 8 ==> is_ascii_digit(#[trigger] s[i])
}

/// The date written `YYYYMMDD`.
pub open spec fn compact_date_value(s: Seq<char>) -> CivilDate {
    CivilDate {
        year: digits_value(s.subrange(0, 4)) as int,
        month: digits_value(s.subrange(4, 6)) as int,
        day: digits_value(s.subrange(6, 8)) as int,
    }
}

/// The `i`-th date-only format tried, in order.
pub open spec fn date_format(i: int) -> Seq<char> {
    if i == 0 {
        "%Y-%m-%d"@
    } else if i == 1 {
        "%d-%m-%Y"@
    } else if i == 2 {
        "%d %b %Y"@
    } else if i == 3 {
        "%d-%b-%Y"@
    } else if i == 4 {
        "%d %B %Y"@
    } else {
        "%d-%B-%Y"@
    }
}

/// The date (counted from the common era) of the first date-only format, from
/// the `i`-th on, that parses `s`.
pub open spec fn first_date_match(s: Seq<char>, i: int) -> Option<int>
    decreases 6 - i,
{
    if i >= 6 {
        None
    } else {
        match chrono_parse_naive_date(s, date_format(i)) {
            Some(d) => Some(d),
            None => first_date_match(s, i + 1),
        }
    }
}

/// The date-only formats are tried in this order: the year first
/// (`%Y-%m-%d`), then the day first with a numeric month (`%d-%m-%Y`), a short
/// month name (`%d %b %Y`, `%d-%b-%Y`) and a full month name (`%d %B %Y`,
/// `%d-%B-%Y`); the date taken is that of the first format `chrono` accepts.
pub proof fn lemma_first_date_match(s: Seq<char>)
    ensures
        first_date_match(s, 0) == if chrono_parse_naive_date(s, "%Y-%m-%d"@) is Some {
            chrono_parse_naive_date(s, "%Y-%m-%d"@)
        } else if chrono_parse_naive_date(s, "%d-%m-%Y"@) is Some {
            chrono_parse_naive_date(s, "%d-%m-%Y"@)
        } else if chrono_parse_naive_date(s, "%d %b %Y"@) is Some {
            chrono_parse_naive_date(s, "%d %b %Y"@)
        } else if chrono_parse_naive_date(s, "%d-%b-%Y"@) is Some {
            chrono_parse_naive_date(s, "%d-%b-%Y"@)
        } else if chrono_parse_naive_date(s, "%d %B %Y"@) is Some {
            chrono_parse_naive_date(s, "%d %B %Y"@)
        } else {
            chrono_parse_naive_date(s, "%d-%B-%Y"@)
        },
{
    reveal_with_fuel(first_date_match, 7);
}

/// The instant at `hour:minute:second` on the day `ce_day` (counted from the common era).
pub open spec fn day_at(ce_day: int, hour: int, minute: int, second: int) -> Instant {
    spec_at_time_of_day(ce_day - UNIX_EPOCH_DAY_FROM_CE, hour, minute, second)->0
}

/// What a parsed expiration stands for.
pub enum ParsedExpiration {
    Days(DecimalView),
    DateTime(Instant),
}

/// The expiration that `s` denotes, following the order of the accepted shapes;
/// `None` when no shape accepts it.
pub open spec fn parse_outcome(s: Seq<char>) -> Option<ParsedExpiration> {
    if positive_from_str(s) is Some {
        Some(ParsedExpiration::Days(positive_from_str(s)->0))
    } else if chrono_parse_rfc3339(s) is Some {
        Some(ParsedExpiration::DateTime(chrono_parse_rfc3339(s)->0))
    } else if utc_marked(s) && chrono_parse_naive_datetime(
        std_trim(strip_suffix_repeatedly(s, " UTC"@)),
        "%Y-%m-%d %H:%M:%S"@,
    ) is Some {
        Some(
            ParsedExpiration::DateTime(
                chrono_parse_naive_datetime(
                    std_trim(strip_suffix_repeatedly(s, " UTC"@)),
                    "%Y-%m-%d %H:%M:%S"@,
                )->0,
            ),
        )
    } else if minute_precision(s) && chrono_parse_rfc3339(s + ":00Z"@) is Some {
        Some(ParsedExpiration::DateTime(chrono_parse_rfc3339(s + ":00Z"@)->0))
    } else if compact_date(s) && supported_date(compact_date_value(s)) {
        Some(ParsedExpiration::DateTime(day_at(day_from_ce(compact_date_value(s)), 23, 59, 59)))
    } else if first_date_match(std_to_lowercase(s), 0) is Some {
        Some(ParsedExpiration::DateTime(day_at(first_date_match(std_to_lowercase(s), 0)->0, 18, 30, 0)))
    } else {
        None
    }
}

/// `s` is RFC 3339 to the second, as written for a whole second of a year
/// from 0 to 9999.
pub open spec fn rfc3339_form(s: Seq<char>, t: Instant) -> bool {
    valid_instant(t) && t.nanos % 1_000_000_000 == 0 && 0 <= date_of(t).year <= 9999 && s == format_text(
        t,
        "%Y-%m-%dT%H:%M:%SZ"@,
    )
}

/// `s` is how an instant of a year from 0 to 9999 is displayed:
/// `%Y-%m-%d %H:%M:%S UTC`.
pub open spec fn display_form(s: Seq<char>, t: Instant) -> bool {
    valid_instant(t) && 0 <= date_of(t).year <= 9999 && s == format_text(t, "%Y-%m-%d %H:%M:%S UTC"@)
}

/// The displayed form of an instant holds a `:`, has a space where RFC 3339
/// has its offset, ends in ` UTC`, and without it is the date and time of the
/// whole second, starting and ending with a digit.
proof fn lemma_display_form(s: Seq<char>, t: Instant)
    requires
        display_form(s, t),
    ensures
        s.contains(':'),
        s.len() > 19 && s[19] == ' ',
        utc_marked(s),
        strip_suffix_repeatedly(s, " UTC"@) == date_time_text(t),
        date_time_text(t).len() == 19,
        is_ascii_digit(date_time_text(t)[0]),
        is_ascii_digit(date_time_text(t)[18]),
        date_time_text(whole_second(t)) == date_time_text(t),
        valid_instant(whole_second(t)),
        whole_second(t).nanos % 1_000_000_000 == 0,
        0 <= date_of(whole_second(t)).year <= 9999,
{
    reveal_strlit(" UTC");
    lemma_display_text_shape(t);
    lemma_date_time_text_has_colon(t, "%Y-%m-%d %H:%M:%S UTC"@);
    let dt = date_time_text(t);
    let suffix = seq![' ', 'U', 'T', 'C'];
    assert(suffix =~= " UTC"@);
    assert(s == dt + suffix);
    assert(s.subrange(19, 23) =~= " UTC"@);
    assert(s.subrange(0, 19) =~= dt);
    assert(contains_seq(s, " UTC"@)) by {
        assert(s.subrange(19, 19 + " UTC"@.len() as int) == " UTC"@);
    }
    assert(dt.subrange(15, 19)[3] == dt[18]);
    assert(dt.subrange(15, 19) != " UTC"@) by {
        assert(" UTC"@[3] == 'C');
    }
    reveal_with_fuel(strip_suffix_repeatedly, 2);
}

/// The characters of `s`.
fn chars_of(s: &str) -> (r: Vec<char>)
    ensures
        r@ == s@,
{
    let n = s.unicode_len();
    let mut v: Vec<char> = Vec::new();
    let mut i: usize = 0;
    while i < n
        invariant
            n == s@.len(),
            i <= n,
            v@ == s@.subrange(0, i as int),
        decreases n - i,
    {
        v.push(s.get_char(i));
        i = i + 1;
    }
    v
}

/// Whether `c` occurs in `chars`.
fn has_char(chars: &Vec<char>, c: char) -> (r: bool)
    ensures
        r == chars@.contains(c),
{
    let mut i: usize = 0;
    while i < chars.len()
        invariant
            i <= chars.len(),
            forall|j: int| 0 <= j < i ==> chars@[j] != c,
        decreases chars.len() - i,
    {
        if chars[i] == c {
            return true;
        }
        i = i + 1;
    }
    false
}

/// How many times `c` occurs in `chars`.
fn char_count(chars: &Vec<char>, c: char) -> (r: usize)
    ensures
        r == count_char(chars@, c),
{
    let mut i: usize = 0;
    let mut n: usize = 0;
    while i < chars.len()
        invariant
            i <= chars.len(),
            n == count_char(chars@.subrange(0, i as int), c),
            n <= i,
        decreases chars.len() - i,
    {
        assert(chars@.subrange(0, i + 1).drop_last() == chars@.subrange(0, i as int));
        if chars[i] == c {
            n = n + 1;
        }
        i = i + 1;
    }
    assert(chars@.subrange(0, chars.len() as int) == chars@);
    n
}

/// Whether ` UTC` appears in `chars` at position `at`.
fn utc_at(chars: &Vec<char>, at: usize) -> (r: bool)
    requires
        at + 4 <= chars.len(),
    ensures
        r == (chars@.subrange(at as int, at + 4) == " UTC"@),
{
    proof {
        reveal_strlit(" UTC");
    }
    let r = chars[at] == ' ' && chars[at + 1] == 'U' && chars[at + 2] == 'T' && chars[at + 3] == 'C';
    proof {
        if r {
            assert(chars@.subrange(at as int, at + 4) =~= " UTC"@);
        } else if chars@.subrange(at as int, at + 4) == " UTC"@ {
            assert(chars@.subrange(at as int, at + 4)[0] == chars@[at as int]);
            assert(chars@.subrange(at as int, at + 4)[1] == chars@[at + 1]);
            assert(chars@.subrange(at as int, at + 4)[2] == chars@[at + 2]);
            assert(chars@.subrange(at as int, at + 4)[3] == chars@[at + 3]);
        }
    }
    r
}

/// Whether ` UTC` occurs in `chars`.
fn has_utc(chars: &Vec<char>) -> (r: bool)
    ensures
        r == contains_seq(chars@, " UTC"@),
{
    proof {
        reveal_strlit(" UTC");
    }
    if chars.len() < 4 {
        return false;
    }
    let mut i: usize = 0;
    while i <= chars.len() - 4
        invariant
            chars.len() >= 4,
            i <= chars.len() - 3,
            " UTC"@.len() == 4,
            forall|j: int| 0 <= j < i ==> #[trigger] chars@.subrange(j, j + 4) != " UTC"@,
        decreases chars.len() + 1 - i,
    {
        if utc_at(chars, i) {
            return true;
        }
        i = i + 1;
    }
    false
}

/// The length of `chars` once every trailing ` UTC` is removed.
fn strip_utc_len(chars: &Vec<char>) -> (r: usize)
    ensures
        r <= chars.len(),
        chars@.subrange(0, r as int) == strip_suffix_repeatedly(chars@, " UTC"@),
{
    proof {
        reveal_strlit(" UTC");
    }
    let mut end = chars.len();
    assert(chars@.subrange(0, end as int) =~= chars@);
    while end >= 4 && utc_at(chars, end - 4)
        invariant
            end <= chars.len(),
            " UTC"@.len() == 4,
            strip_suffix_repeatedly(chars@.subrange(0, end as int), " UTC"@) == strip_suffix_repeatedly(
                chars@,
                " UTC"@,
            ),
        decreases end,
    {
        proof {
            let cur = chars@.subrange(0, end as int);
            assert(cur.subrange(cur.len() - 4, cur.len() as int) =~= chars@.subrange(end - 4, end as int));
            assert(cur.subrange(0, cur.len() - 4) =~= chars@.subrange(0, end - 4));
        }
        end = end - 4;
    }
    proof {
        let cur = chars@.subrange(0, end as int);
        if end >= 4 {
            assert(cur.subrange(cur.len() - 4, cur.len() as int) =~= chars@.subrange(end - 4, end as int));
        }
    }
    end
}


/// Whether `chars` are eight ASCII digits.
fn is_compact_date(chars: &Vec<char>) -> (r: bool)
    ensures
        r == compact_date(chars@),
{
    if chars.len() != 8 {
        return false;
    }
    let mut i: usize = 0;
    while i < 8
        invariant
            chars.len() == 8,
            i <= 8,
            forall|j: int| 0 <= j < i ==> is_ascii_digit(#[trigger] chars@[j]),
        decreases 8 - i,
    {
        if !(chars[i] >= '0' && chars[i] <= '9') {
            return false;
        }
        i = i + 1;
    }
    true
}

/// The number written by the digits `chars[from..to]`, at most four of them.
fn digits_number(chars: &Vec<char>, from: usize, to: usize) -> (r: u32)
    requires
        from <= to <= chars.len(),
        to - from <= 4,
        forall|j: int| from <= j < to ==> is_ascii_digit(#[trigger] chars@[j]),
    ensures
        r == digits_value(chars@.subrange(from as int, to as int)),
        r < 10000,
{
    proof {
        reveal_with_fuel(pow10, 5);
        assert(pow10(4) == 10000);
    }
    let mut value: u32 = 0;
    let mut i: usize = from;
    while i < to
        invariant
            from <= i <= to,
            to <= chars.len(),
            to - from <= 4,
            forall|j: int| from <= j < to ==> is_ascii_digit(#[trigger] chars@[j]),
            value == digits_value(chars@.subrange(from as int, i as int)),
            value < pow10((i - from) as nat),
            pow10(4) == 10000,
        decreases to - i,
    {
        proof {
            assert(chars@.subrange(from as int, i + 1).drop_last() =~= chars@.subrange(from as int, i as int));
            assert(is_ascii_digit(chars@[i as int]));
            assert(pow10((i + 1 - from) as nat) == 10 * pow10((i - from) as nat));
            assert(pow10((i - from) as nat) <= 1000) by {
                reveal_with_fuel(pow10, 5);
            }
        }
        let digit = (chars[i] as u32) - ('0' as u32);
        value = value * 10 + digit;
        i = i + 1;
    }
    value
}

/// The `i`-th date-only format tried.
fn date_format_at(i: usize) -> (r: &'static str)
    requires
        i < 6,
    ensures
        r@ == date_format(i as int),
{
    if i == 0 {
        "%Y-%m-%d"
    } else if i == 1 {
        "%d-%m-%Y"
    } else if i == 2 {
        "%d %b %Y"
    } else if i == 3 {
        "%d-%b-%Y"
    } else if i == 4 {
        "%d %B %Y"
    } else {
        "%d-%B-%Y"
    }
}

/// The instant at `hour:minute:second` on a date `chrono` gave, counted from the common era.
/// `None` when the time of day is not a valid one.
fn day_at_time(ce_day: i32, hour: u32, minute: u32, second: u32) -> (r: Option<UtcDateTime>)
    requires
        supported_day(ce_day as int),
    ensures
        r is Some <==> hour < 24 && minute < 60 && second < 60,
        r matches Some(t) ==> t@ == day_at(ce_day as int, hour as int, minute as int, second as int),
{
    UtcDateTime::at_time_of_day(ce_day as i64 - UNIX_EPOCH_DAY_FROM_CE, hour, minute, second)
}

impl ExpirationDate {
    /// Parses an expiration from text, trying the accepted shapes in order (see
    /// the module documentation). A parsed datetime becomes the reference
    /// datetime; text that no shape accepts is a `ParseError`.
    pub fn from_string(s: &str, reference: &mut Option<UtcDateTime>) -> (r: Result<ExpirationDate, ExpirationDateError>)
        ensures
            match parse_outcome(s@) {
                Some(ParsedExpiration::Days(d)) => r matches Ok(ExpirationDate::Days(p)) && p@ == d
                    && *final(reference) == *old(reference),
                Some(ParsedExpiration::DateTime(t)) => r matches Ok(ExpirationDate::DateTime(x)) && x@ == t
                    && *final(reference) == Some(x),
                None => r matches Err(ExpirationDateError::ParseError(m))
                    && m@ == "failed to parse expirationdate from string: "@ + s@
                    && *final(reference) == *old(reference),
            },
            s@.contains(':') ==> positive_from_str(s@) is None,
            s@.contains(':') ==> (chrono_parse_rfc3339(s@) matches Some(t) ==> (r matches Ok(
                ExpirationDate::DateTime(x),
            ) && x@ == t && *final(reference) == Some(x))),
            forall|t: Instant| #[trigger]
                display_form(s@, t) ==> (r matches Ok(ExpirationDate::DateTime(x)) && x@ == whole_second(t)
                    && *final(reference) == Some(x)),
            forall|t: Instant| #[trigger]
                rfc3339_form(s@, t) ==> (r matches Ok(ExpirationDate::DateTime(x)) && x@ == t
                    && *final(reference) == Some(x)),
    {
        if let Ok(days) = PositiveDecimal::parse(s) {
            proof {
                assert forall|t: Instant| !display_form(s@, t) by {
                    if display_form(s@, t) {
                        lemma_display_form(s@, t);
                    }
                }
                assert forall|t: Instant| !rfc3339_form(s@, t) by {
                    if rfc3339_form(s@, t) {
                        lemma_date_time_text_has_colon(t, "%Y-%m-%dT%H:%M:%SZ"@);
                    }
                }
            }
            return Ok(ExpirationDate::Days(days));
        }
        if let Ok(t) = parse_rfc3339(s) {
            proof {
                assert forall|u: Instant| !display_form(s@, u) by {
                    if display_form(s@, u) {
                        lemma_display_form(s@, u);
                    }
                }
            }
            *reference = Some(t);
            return Ok(ExpirationDate::DateTime(t));
        }
        assert(forall|u: Instant| !rfc3339_form(s@, u));
        if let Some(t) = parse_with_offset(s, "%Y-%m-%d %H:%M:%S %Z") {
            *reference = Some(t);
            return Ok(ExpirationDate::DateTime(t));
        }
        let chars = chars_of(s);
        if has_utc(&chars) && has_char(&chars, ':') {
            if let Some(t) = parse_with_offset(s, "%Y-%m-%d %H:%M:%S %Z") {
                *reference = Some(t);
                return Ok(ExpirationDate::DateTime(t));
            }
            if let Some(t) = parse_with_offset(s, "%Y-%m-%d %H:%M:%S UTC") {
                *reference = Some(t);
                return Ok(ExpirationDate::DateTime(t));
            }
            let end = strip_utc_len(&chars);
            let date_time_part = trim(s.substring_char(0, end));
            proof {
                assert forall|u: Instant| #[trigger]
                    display_form(s@, u) implies date_time_part@ == date_time_text(whole_second(u)) by {
                    lemma_display_form(s@, u);
                    let part = s@.subrange(0, end as int);
                    assert(part == date_time_text(u));
                    assert(part[part.len() - 1] == date_time_text(u)[18]);
                }
            }
            if let Some(t) = parse_naive_datetime(date_time_part.as_str(), "%Y-%m-%d %H:%M:%S") {
                proof {
                    reveal_strlit("%Y-%m-%d %H:%M:%S");
                    assert forall|u: Instant| #[trigger]
                        display_form(s@, u) implies t@ == whole_second(u) by {
                        lemma_display_form(s@, u);
                        assert(date_time_part@ == date_time_text(whole_second(u)));
                    }
                }
                *reference = Some(t);
                return Ok(ExpirationDate::DateTime(t));
            }
            proof {
                assert forall|u: Instant| !display_form(s@, u) by {
                    if display_form(s@, u) {
                        lemma_display_form(s@, u);
                        assert(date_time_part@ == date_time_text(whole_second(u)));
                    }
                }
            }
        } else {
            proof {
                assert forall|u: Instant| !display_form(s@, u) by {
                    if display_form(s@, u) {
                        lemma_display_form(s@, u);
                    }
                }
            }
        }
        if has_char(&chars, 'T') && char_count(&chars, ':') == 1 {
            let candidate = String::from_str(s).concat(":00Z");
            if let Ok(t) = parse_rfc3339(candidate.as_str()) {
                *reference = Some(t);
                return Ok(ExpirationDate::DateTime(t));
            }
        }
        if is_compact_date(&chars) {
            let year = digits_number(&chars, 0, 4);
            let month = digits_number(&chars, 4, 6);
            let day = digits_number(&chars, 6, 8);
            if let Some(ce_day) = date_from_ymd(year as i32, month, day) {
                proof {
                    lemma_supported_date_day(compact_date_value(s@));
                }
                if let Some(t) = day_at_time(ce_day, 23, 59, 59) {
                    *reference = Some(t);
                    return Ok(ExpirationDate::DateTime(t));
                }
            }
        }
        let lowered = to_lowercase(s);
        let mut i: usize = 0;
        while i < 6
            invariant
                i <= 6,
                first_date_match(lowered@, 0) == first_date_match(lowered@, i as int),
                *reference == *old(reference),
                lowered@ == std_to_lowercase(s@),
                forall|u: Instant| !display_form(s@, u),
                forall|u: Instant| !rfc3339_form(s@, u),
                parse_outcome(s@) == match first_date_match(lowered@, 0) {
                    Some(d) => Some(ParsedExpiration::DateTime(day_at(d, 18, 30, 0))),
                    None => None,
                },
            decreases 6 - i,
        {
            let format = date_format_at(i);
            if let Some(ce_day) = parse_naive_date(lowered.as_str(), format) {
                assert(first_date_match(lowered@, i as int) == Some(ce_day as int));
                match day_at_time(ce_day, 18, 30, 0) {
                    Some(t) => {
                        *reference = Some(t);
                        return Ok(ExpirationDate::DateTime(t));
                    },
                    None => {
                        return Err(
                            ExpirationDateError::InvalidDateTime(
                                String::from_str("invalid time conversion for date: ").concat(s),
                            ),
                        );
                    },
                }
            }
            assert(first_date_match(lowered@, i as int) == first_date_match(lowered@, i + 1));
            i = i + 1;
        }
        Err(
            ExpirationDateError::ParseError(
                String::from_str("failed to parse expirationdate from string: ").concat(s),
            ),
        )
    }
}

} // verus!
