//! Equality and order of day counts, as expirations compare: two day counts
//! are equal when they differ by less than 1e-16, and are ordered by value; a
//! day count that could not be computed (an error) is ordered before every
//! value, and errors among themselves by their text.

use vstd::prelude::*;
use core::cmp::Ordering;
use crate::decimal::{
    dec_abs, dec_less, dec_same_value, epsilon_view, lemma_pow10_positive, pow10,
    rust_decimal_sub, signed_mantissa, DecimalView, PositiveDecimal,
};
use crate::error::{known_message, ExpirationDateError};

verus! {

/// `a` comes before `b` in lexicographic order of bytes (a proper prefix first).
pub open spec fn lex_less(a: Seq<u8>, b: Seq<u8>) -> bool
    decreases a.len(),
{
    if a.len() == 0 {
        b.len() > 0
    } else if b.len() == 0 {
        false
    } else if a[0] < b[0] {
        true
    } else if a[0] > b[0] {
        false
    } else {
        lex_less(a.drop_first(), b.drop_first())
    }
}

/// The UTF-8 bytes of a text.
pub open spec fn text_bytes(s: Seq<char>) -> Seq<u8> {
    vstd::utf8::encode_utf8(s)
}

/// Order of two byte strings.
pub open spec fn bytes_order(a: Seq<u8>, b: Seq<u8>) -> Ordering {
    if lex_less(a, b) {
        Ordering::Less
    } else if lex_less(b, a) {
        Ordering::Greater
    } else {
        Ordering::Equal
    }
}

/// Order of two decimals by value.
pub open spec fn value_order(x: DecimalView, y: DecimalView) -> Ordering {
    if dec_less(x, y) {
        Ordering::Less
    } else if dec_less(y, x) {
        Ordering::Greater
    } else {
        Ordering::Equal
    }
}

/// The order of two day-count results; `None` for two errors whose text
/// comes from an outside error.
pub open spec fn day_order(
    a: Result<PositiveDecimal, ExpirationDateError>,
    b: Result<PositiveDecimal, ExpirationDateError>,
) -> Option<Ordering> {
    match (a, b) {
        (Ok(x), Ok(y)) => Some(value_order(x@, y@)),
        (Err(ea), Err(eb)) => match (known_message(ea), known_message(eb)) {
            (Some(ma), Some(mb)) => Some(bytes_order(text_bytes(ma), text_bytes(mb))),
            _ => None,
        },
        (Err(_), Ok(_)) => Some(Ordering::Less),
        (Ok(_), Err(_)) => Some(Ordering::Greater),
    }
}

/// Two day-count results are equal: both values, differing by less than 1e-16.
pub open spec fn days_match(
    a: Result<PositiveDecimal, ExpirationDateError>,
    b: Result<PositiveDecimal, ExpirationDateError>,
) -> bool {
    match (a, b) {
        (Ok(x), Ok(y)) => dec_less(dec_abs(rust_decimal_sub(x@, y@)), epsilon_view()),
        _ => false,
    }
}

pub open spec fn flip(o: Ordering) -> Ordering {
    match o {
        Ordering::Less => Ordering::Greater,
        Ordering::Equal => Ordering::Equal,
        Ordering::Greater => Ordering::Less,
    }
}

/// `Ord::cmp` of `String`: lexicographic order of the bytes.
#[verifier::external_body]
fn compare_text(a: &String, b: &String) -> (r: Ordering)
    ensures
        r == bytes_order(text_bytes(a@), text_bytes(b@)),
{
    a.cmp(b)
}

/// Whether two day-count results are equal: both computed, and within 1e-16 of
/// each other. The answer does not depend on the order of the two, and two
/// values that the order finds equal are equal.
pub fn days_equal(
    a: &Result<PositiveDecimal, ExpirationDateError>,
    b: &Result<PositiveDecimal, ExpirationDateError>,
) -> (r: bool)
    ensures
        r == days_match(*a, *b),
        r == days_match(*b, *a),
        (a matches Ok(x) && b matches Ok(y) && dec_same_value(x@, y@)) ==> r,
{
    match (a, b) {
        (Ok(x), Ok(y)) => x.within_epsilon(y),
        _ => false,
    }
}

/// The order of two day-count results: values by value, an error before any
/// value, two errors by their text.
pub fn compare_days(
    a: &Result<PositiveDecimal, ExpirationDateError>,
    b: &Result<PositiveDecimal, ExpirationDateError>,
) -> (r: Ordering)
    ensures
        day_order(*a, *b) matches Some(o) ==> r == o,
{
    match (a, b) {
        (Ok(x), Ok(y)) => x.compare(y),
        (Err(ea), Err(eb)) => compare_text(&ea.message(), &eb.message()),
        (Err(_), Ok(_)) => Ordering::Less,
        (Ok(_), Err(_)) => Ordering::Greater,
    }
}

proof fn lemma_lex_asymmetric(a: Seq<u8>, b: Seq<u8>)
    ensures
        !(lex_less(a, b) && lex_less(b, a)),
        !lex_less(a, b) && !lex_less(b, a) ==> a == b,
    decreases a.len(),
{
    if a.len() > 0 && b.len() > 0 && a[0] == b[0] {
        lemma_lex_asymmetric(a.drop_first(), b.drop_first());
        if !lex_less(a, b) && !lex_less(b, a) {
            assert(a =~= seq![a[0]] + a.drop_first());
            assert(b =~= seq![b[0]] + b.drop_first());
        }
    }
}

proof fn lemma_lex_transitive(a: Seq<u8>, b: Seq<u8>, c: Seq<u8>)
    requires
        lex_less(a, b),
        lex_less(b, c),
    ensures
        lex_less(a, c),
    decreases a.len(),
{
    if a.len() > 0 && b.len() > 0 && c.len() > 0 && a[0] == b[0] && b[0] == c[0] {
        lemma_lex_transitive(a.drop_first(), b.drop_first(), c.drop_first());
    }
}

proof fn lemma_lex_irreflexive(a: Seq<u8>)
    ensures
        !lex_less(a, a),
    decreases a.len(),
{
    if a.len() > 0 {
        lemma_lex_irreflexive(a.drop_first());
    }
}

proof fn lemma_dec_less_transitive(x: DecimalView, y: DecimalView, z: DecimalView)
    requires
        dec_less(x, y),
        dec_less(y, z),
    ensures
        dec_less(x, z),
{
    lemma_pow10_positive(x.scale);
    lemma_pow10_positive(y.scale);
    lemma_pow10_positive(z.scale);
    let (a, b, c) = (signed_mantissa(x), signed_mantissa(y), signed_mantissa(z));
    let (pa, pb, pc) = (pow10(x.scale) as int, pow10(y.scale) as int, pow10(z.scale) as int);
    assert(a * pc < c * pa) by (nonlinear_arith)
        requires
            a * pb < b * pa,
            b * pc < c * pb,
            pa > 0,
            pb > 0,
            pc > 0,
    {
        assert(a * pb * pc < b * pa * pc);
        assert(b * pc * pa < c * pb * pa);
        assert(a * pc * pb < c * pa * pb);
    }
}

proof fn lemma_dec_same_value_transitive(x: DecimalView, y: DecimalView, z: DecimalView)
    requires
        !dec_less(x, y) && !dec_less(y, x),
        !dec_less(y, z) && !dec_less(z, y),
    ensures
        !dec_less(x, z) && !dec_less(z, x),
{
    lemma_pow10_positive(x.scale);
    lemma_pow10_positive(y.scale);
    lemma_pow10_positive(z.scale);
    let (a, b, c) = (signed_mantissa(x), signed_mantissa(y), signed_mantissa(z));
    let (pa, pb, pc) = (pow10(x.scale) as int, pow10(y.scale) as int, pow10(z.scale) as int);
    assert(a * pc == c * pa) by (nonlinear_arith)
        requires
            a * pb == b * pa,
            b * pc == c * pb,
            pa > 0,
            pb > 0,
            pc > 0,
    {
        assert(a * pb * pc == b * pa * pc);
        assert(b * pc * pa == c * pb * pa);
        assert(a * pc * pb == c * pa * pb);
    }
}

proof fn lemma_dec_less_same_value(x: DecimalView, y: DecimalView, z: DecimalView)
    requires
        dec_less(x, y) && !dec_less(y, z) && !dec_less(z, y) || !dec_less(x, y) && !dec_less(y, x) && dec_less(y, z),
    ensures
        dec_less(x, z),
{
    lemma_pow10_positive(x.scale);
    lemma_pow10_positive(y.scale);
    lemma_pow10_positive(z.scale);
    let (a, b, c) = (signed_mantissa(x), signed_mantissa(y), signed_mantissa(z));
    let (pa, pb, pc) = (pow10(x.scale) as int, pow10(y.scale) as int, pow10(z.scale) as int);
    if dec_less(x, y) {
        assert(a * pc < c * pa) by (nonlinear_arith)
            requires
                a * pb < b * pa,
                b * pc == c * pb,
                pa > 0,
                pb > 0,
                pc > 0,
        {
            assert(a * pb * pc < b * pa * pc);
            assert(b * pc * pa == c * pb * pa);
            assert(a * pc * pb < c * pa * pb);
        }
    } else {
        assert(a * pc < c * pa) by (nonlinear_arith)
            requires
                a * pb == b * pa,
                b * pc < c * pb,
                pa > 0,
                pb > 0,
                pc > 0,
        {
            assert(a * pb * pc == b * pa * pc);
            assert(b * pc * pa < c * pb * pa);
            assert(a * pc * pb < c * pa * pb);
        }
    }
}

/// Swapping two day-count results reverses their order.
pub proof fn lemma_day_order_antisymmetric(
    a: Result<PositiveDecimal, ExpirationDateError>,
    b: Result<PositiveDecimal, ExpirationDateError>,
)
    requires
        day_order(a, b) is Some,
    ensures
        day_order(b, a) == Some(flip(day_order(a, b)->0)),
{
    match (a, b) {
        (Err(ea), Err(eb)) => {
            lemma_lex_asymmetric(text_bytes(known_message(ea)->0), text_bytes(known_message(eb)->0));
        },
        _ => {},
    }
}

/// Every day count, and every error with text of this library, is equal to itself.
pub proof fn lemma_day_order_reflexive(a: Result<PositiveDecimal, ExpirationDateError>)
    requires
        a matches Err(e) ==> known_message(e) is Some,
    ensures
        day_order(a, a) == Some(Ordering::Equal),
{
    if let Err(e) = a {
        lemma_lex_irreflexive(text_bytes(known_message(e)->0));
    }
}

/// The order of day-count results is transitive: from `a <= b` and `b <= c`
/// follows `a <= c`, strictly when either step is strict.
pub proof fn lemma_day_order_transitive(
    a: Result<PositiveDecimal, ExpirationDateError>,
    b: Result<PositiveDecimal, ExpirationDateError>,
    c: Result<PositiveDecimal, ExpirationDateError>,
)
    requires
        day_order(a, b) matches Some(o) && o != Ordering::Greater,
        day_order(b, c) matches Some(o) && o != Ordering::Greater,
    ensures
        day_order(a, c) matches Some(o) && o != Ordering::Greater,
        (day_order(a, b) == Some(Ordering::Less) || day_order(b, c) == Some(Ordering::Less))
            ==> day_order(a, c) == Some(Ordering::Less),
{
    match (a, b, c) {
        (Ok(x), Ok(y), Ok(z)) => {
            let (vx, vy, vz) = (x@, y@, z@);
            if dec_less(vx, vy) && dec_less(vy, vz) {
                lemma_dec_less_transitive(vx, vy, vz);
            } else if dec_less(vx, vy) || dec_less(vy, vz) {
                lemma_dec_less_same_value(vx, vy, vz);
            } else {
                lemma_dec_same_value_transitive(vx, vy, vz);
            }
        },
        (Err(ea), Err(eb), Err(ec)) => {
            let (ta, tb, tc) = (
                text_bytes(known_message(ea)->0),
                text_bytes(known_message(eb)->0),
                text_bytes(known_message(ec)->0),
            );
            lemma_lex_asymmetric(ta, tb);
            lemma_lex_asymmetric(tb, tc);
            if lex_less(ta, tb) && lex_less(tb, tc) {
                lemma_lex_transitive(ta, tb, tc);
            }
            lemma_lex_asymmetric(ta, tc);
            lemma_lex_irreflexive(ta);
        },
        _ => {},
    }
}

/// Two computed day counts that the order finds equal have the same value (and
/// so are equal by [`days_equal`]).
pub proof fn lemma_day_order_equal_values(
    a: Result<PositiveDecimal, ExpirationDateError>,
    b: Result<PositiveDecimal, ExpirationDateError>,
)
    requires
        a is Ok,
        b is Ok,
        day_order(a, b) == Some(Ordering::Equal),
    ensures
        dec_same_value(a->Ok_0@, b->Ok_0@),
{
}

/// A day count that could not be computed equals nothing.
pub proof fn lemma_days_match_errors(
    a: Result<PositiveDecimal, ExpirationDateError>,
    b: Result<PositiveDecimal, ExpirationDateError>,
)
    requires
        a is Err || b is Err,
    ensures
        !days_match(a, b),
{
}

} // verus!
