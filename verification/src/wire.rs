//! The serialized form of an expiration: a map with a single entry, either
//! `days` (a number) or `datetime` (RFC 3339 text). This module holds the
//! decisions of reading such a map: which keys are accepted, that none comes
//! twice, and which entry is used when both come.

use vstd::prelude::*;
use crate::datetime::{date_of, format_text, lemma_date_time_text_has_colon, UtcDateTime};
use crate::parser::chrono_parse_rfc3339;

verus! {

/// An entry of the serialized form.
#[derive(Debug, Clone, Copy, PartialEq, Eq)]
pub enum WireField {
    /// `days`: a non-negative number of days.
    Days,
    /// `datetime`: an RFC 3339 datetime.
    DateTime,
}

/// Why a key of the map is refused.
#[derive(Debug)]
pub enum WireKeyError {
    /// The entry came before.
    DuplicateField(WireField),
    /// The key is neither `days` nor `datetime`.
    UnknownField(String),
}

/// The text of the `datetime` entry: the instant in RFC 3339 to the second.
/// For a whole second of a four-digit year it reads back as the same instant;
/// a fraction of a second is not written.
pub fn datetime_entry(t: &UtcDateTime) -> (r: String)
    ensures
        r@ == format_text(t@, "%Y-%m-%dT%H:%M:%SZ"@),
        r@.contains(':'),
        (t@.nanos % 1_000_000_000 == 0 && 0 <= date_of(t@).year <= 9999) ==> chrono_parse_rfc3339(r@) == Some(
            t@,
        ),
{
    let r = t.format("%Y-%m-%dT%H:%M:%SZ");
    proof {
        lemma_date_time_text_has_colon(t@, "%Y-%m-%dT%H:%M:%SZ"@);
    }
    r
}

/// The keys of a serialized map read so far.
#[derive(Debug, Clone, Copy)]
pub struct WireFields {
    pub seen_days: bool,
    pub seen_datetime: bool,
}

/// Whether two texts are the same.
fn same_text(a: &str, b: &str) -> (r: bool)
    ensures
        r == (a@ == b@),
{
    let n = a.unicode_len();
    if n != b.unicode_len() {
        return false;
    }
    let mut i: usize = 0;
    while i < n
        invariant
            n == a@.len(),
            n == b@.len(),
            i <= n,
            forall|j: int| 0 <= j < i ==> a@[j] == b@[j],
        decreases n - i,
    {
        if a.get_char(i) != b.get_char(i) {
            return false;
        }
        i = i + 1;
    }
    assert(a@ =~= b@);
    true
}

impl WireFields {
    /// No key read yet.
    pub fn new() -> (r: WireFields)
        ensures
            !r.seen_days && !r.seen_datetime,
    {
        WireFields { seen_days: false, seen_datetime: false }
    }

    /// Reads the next key: `days` or `datetime` the first time each comes; a
    /// duplicate when one comes again; anything else is unknown. A refused key
    /// leaves the record unchanged.
    pub fn accept_key(&mut self, key: &str) -> (r: Result<WireField, WireKeyError>)
        ensures
            key@ == "days"@ ==> if old(self).seen_days {
                r matches Err(WireKeyError::DuplicateField(WireField::Days)) && *final(self) == *old(self)
            } else {
                r == Ok::<WireField, WireKeyError>(WireField::Days) && final(self).seen_days
                    && final(self).seen_datetime == old(self).seen_datetime
            },
            key@ == "datetime"@ ==> if old(self).seen_datetime {
                r matches Err(WireKeyError::DuplicateField(WireField::DateTime)) && *final(self) == *old(
                    self,
                )
            } else {
                r == Ok::<WireField, WireKeyError>(WireField::DateTime) && final(self).seen_datetime
                    && final(self).seen_days == old(self).seen_days
            },
            (key@ != "days"@ && key@ != "datetime"@) ==> (r matches Err(WireKeyError::UnknownField(k))
                && k@ == key@ && *final(self) == *old(self)),
    {
        proof {
            reveal_strlit("days");
            reveal_strlit("datetime");
            assert("days"@.len() != "datetime"@.len());
        }
        if same_text(key, "days") {
            if self.seen_days {
                return Err(WireKeyError::DuplicateField(WireField::Days));
            }
            self.seen_days = true;
            Ok(WireField::Days)
        } else if same_text(key, "datetime") {
            if self.seen_datetime {
                return Err(WireKeyError::DuplicateField(WireField::DateTime));
            }
            self.seen_datetime = true;
            Ok(WireField::DateTime)
        } else {
            Err(WireKeyError::UnknownField(String::from_str(key)))
        }
    }

    /// The entry the expiration is built from once the map is read: `days` when
    /// it came, else `datetime` when it came; `None` when neither did.
    pub fn chosen(&self) -> (r: Option<WireField>)
        ensures
            self.seen_days ==> r == Some(WireField::Days),
            !self.seen_days && self.seen_datetime ==> r == Some(WireField::DateTime),
            !self.seen_days && !self.seen_datetime ==> r is None,
    {
        if self.seen_days {
            Some(WireField::Days)
        } else if self.seen_datetime {
            Some(WireField::DateTime)
        } else {
            None
        }
    }
}

} // verus!
