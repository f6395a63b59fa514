//! Decimal numbers as plain values (sign, 96-bit mantissa, scale), the way
//! `rust_decimal` stores them, and the non-negative decimals that day counts use.

use vstd::prelude::*;
use core::cmp::Ordering;

verus! {

/// Exclusive bound of a decimal mantissa: 2^96.
pub const MANTISSA_BOUND: u128 = 0x1_0000_0000_0000_0000_0000_0000u128;

/// Largest scale (digits after the point) a decimal may have.
pub const MAX_SCALE: u32 = 28u32;

/// Abstract value of a decimal: `(-1)^negative * mantissa / 10^scale`.
pub struct DecimalView {
    pub negative: bool,
    pub mantissa: nat,
    pub scale: nat,
}

pub open spec fn pow10(n: nat) -> nat
    decreases n,
{
    if n == 0 {
        1
    } else {
        10 * pow10((n - 1) as nat)
    }
}

pub proof fn lemma_pow10_positive(n: nat)
    ensures
        pow10(n) > 0,
    decreases n,
{
    if n > 0 {
        lemma_pow10_positive((n - 1) as nat);
    }
}

/// The signed mantissa of a decimal.
pub open spec fn signed_mantissa(d: DecimalView) -> int {
    if d.negative {
        -d.mantissa
    } else {
        d.mantissa as int
    }
}

/// `a` is numerically smaller than `b`.
pub open spec fn dec_less(a: DecimalView, b: DecimalView) -> bool {
    signed_mantissa(a) * pow10(b.scale) < signed_mantissa(b) * pow10(a.scale)
}

/// `a` and `b` denote the same number (whatever their scales and the sign of a zero).
pub open spec fn dec_same_value(a: DecimalView, b: DecimalView) -> bool {
    signed_mantissa(a) * pow10(b.scale) == signed_mantissa(b) * pow10(a.scale)
}

/// The decimal with its sign cleared.
pub open spec fn dec_abs(d: DecimalView) -> DecimalView {
    DecimalView { negative: false, mantissa: d.mantissa, scale: d.scale }
}

/// The tolerance of equality between day counts: 1e-16.
pub open spec fn epsilon_view() -> DecimalView {
    DecimalView { negative: false, mantissa: 1, scale: 16 }
}

/// The integer part of a non-negative decimal.
pub open spec fn dec_trunc(d: DecimalView) -> nat {
    d.mantissa / pow10(d.scale)
}

/// What `rust_decimal` computes for `a - b`.
pub uninterp spec fn rust_decimal_sub(a: DecimalView, b: DecimalView) -> DecimalView;

/// What `Positive::from_str` parses `s` to, when it accepts it.
pub uninterp spec fn positive_from_str(s: Seq<char>) -> Option<DecimalView>;

/// Two decimals of the same value compare alike with a third.
pub proof fn lemma_dec_less_same_value(x: DecimalView, y: DecimalView, z: DecimalView)
    requires
        dec_same_value(x, y),
    ensures
        dec_less(x, z) == dec_less(y, z),
{
    lemma_pow10_positive(x.scale);
    lemma_pow10_positive(y.scale);
    lemma_pow10_positive(z.scale);
    let (a, b, c) = (signed_mantissa(x), signed_mantissa(y), signed_mantissa(z));
    let (pa, pb, pc) = (pow10(x.scale) as int, pow10(y.scale) as int, pow10(z.scale) as int);
    assert((a * pc < c * pa) == (b * pc < c * pb)) by (nonlinear_arith)
        requires
            a * pb == b * pa,
            pa > 0,
            pb > 0,
            pc > 0,
    {
        assert((a * pc < c * pa) == (a * pc * pb < c * pa * pb));
        assert((b * pc < c * pb) == (b * pc * pa < c * pb * pa));
        assert(a * pc * pb == b * pa * pc);
    }
}

/// A decimal number in `rust_decimal`'s representation.
#[derive(Clone, Copy, Debug)]
pub struct DecimalValue {
    negative: bool,
    mantissa: u128,
    scale: u32,
}

impl View for DecimalValue {
    type V = DecimalView;

    closed spec fn view(&self) -> DecimalView {
        DecimalView { negative: self.negative, mantissa: self.mantissa as nat, scale: self.scale as nat }
    }
}

/// Representable by `rust_decimal`: mantissa below 2^96, scale at most 28.
pub open spec fn valid_decimal(d: DecimalView) -> bool {
    d.mantissa < MANTISSA_BOUND && d.scale <= MAX_SCALE
}

/// A non-negative decimal (a zero may carry a minus sign, as in `positive`).
pub open spec fn valid_positive(d: DecimalView) -> bool {
    valid_decimal(d) && (d.negative ==> d.mantissa == 0)
}

#[verifier::external_type_specification]
#[verifier::external_body]
pub struct ExPositiveError(::positive::PositiveError);

impl DecimalValue {
    #[verifier::type_invariant]
    spec fn well_formed(self) -> bool {
        valid_decimal(self@)
    }

    /// Builds a decimal from its parts; `None` unless the mantissa is below 2^96
    /// and the scale at most 28.
    pub fn from_parts(negative: bool, mantissa: u128, scale: u32) -> (r: Option<DecimalValue>)
        ensures
            r is Some <==> mantissa < MANTISSA_BOUND && scale <= MAX_SCALE,
            r matches Some(d) ==> d@ == (DecimalView { negative, mantissa: mantissa as nat, scale: scale as nat }),
    {
        if mantissa < MANTISSA_BOUND && scale <= MAX_SCALE {
            Some(DecimalValue { negative, mantissa, scale })
        } else {
            None
        }
    }

    pub fn is_sign_negative(&self) -> (r: bool)
        ensures
            r == self@.negative,
    {
        self.negative
    }

    pub fn mantissa(&self) -> (r: u128)
        ensures
            r == self@.mantissa,
            valid_decimal(self@),
    {
        proof {
            use_type_invariant(self);
        }
        self.mantissa
    }

    pub fn scale(&self) -> (r: u32)
        ensures
            r == self@.scale,
            valid_decimal(self@),
    {
        proof {
            use_type_invariant(self);
        }
        self.scale
    }

    /// The same magnitude with a non-negative sign, as `Decimal::abs`.
    pub fn abs(&self) -> (r: DecimalValue)
        ensures
            r@ == dec_abs(self@),
    {
        proof {
            use_type_invariant(self);
        }
        DecimalValue { negative: false, mantissa: self.mantissa, scale: self.scale }
    }
}

/// `<` of `rust_decimal::Decimal`, which compares decimals by their numeric
/// value (a negative zero equals zero).
#[verifier::external_body]
pub(crate) fn decimal_less(a: &DecimalValue, b: &DecimalValue) -> (r: bool)
    ensures
        r == dec_less(a@, b@),
{
    let mut x = rust_decimal::Decimal::from_i128_with_scale(a.mantissa as i128, a.scale);
    x.set_sign_negative(a.negative);
    let mut y = rust_decimal::Decimal::from_i128_with_scale(b.mantissa as i128, b.scale);
    y.set_sign_negative(b.negative);
    x < y
}

/// `a - b` with `rust_decimal` (the `Sub` impl). Both operands are
/// non-negative, so it cannot overflow. Two operands of the same value (at any
/// scales) give zero; a zero operand gives the other one, negated when it is
/// subtracted; otherwise both are aligned to the larger scale and the smaller
/// magnitude is taken from the larger, the same computation for `a - b` and
/// `b - a` but for the sign, so the two results have the same magnitude.
#[verifier::external_body]
pub(crate) fn subtract_decimals(a: &DecimalValue, b: &DecimalValue) -> (r: DecimalValue)
    requires
        valid_positive(a@),
        valid_positive(b@),
    ensures
        r@ == rust_decimal_sub(a@, b@),
        valid_decimal(r@),
        dec_same_value(a@, b@) ==> r@.mantissa == 0,
        dec_same_value(dec_abs(r@), dec_abs(rust_decimal_sub(b@, a@))),
{
    let mut x = rust_decimal::Decimal::from_i128_with_scale(a.mantissa as i128, a.scale);
    x.set_sign_negative(a.negative);
    let mut y = rust_decimal::Decimal::from_i128_with_scale(b.mantissa as i128, b.scale);
    y.set_sign_negative(b.negative);
    let d = x - y;
    DecimalValue { negative: d.is_sign_negative(), mantissa: d.mantissa().unsigned_abs(), scale: d.scale() }
}


/// A non-negative decimal, the value held by `positive::Positive`.
#[derive(Clone, Copy, Debug)]
pub struct PositiveDecimal {
    value: DecimalValue,
}

impl View for PositiveDecimal {
    type V = DecimalView;

    closed spec fn view(&self) -> DecimalView {
        self.value@
    }
}

impl PositiveDecimal {
    #[verifier::type_invariant]
    spec fn well_formed(self) -> bool {
        valid_positive(self.value@)
    }

    /// Builds a non-negative decimal from its parts; `None` unless the parts
    /// are a valid decimal that is not below zero.
    pub fn from_parts(negative: bool, mantissa: u128, scale: u32) -> (r: Option<PositiveDecimal>)
        ensures
            r is Some <==> valid_positive(DecimalView { negative, mantissa: mantissa as nat, scale: scale as nat }),
            r matches Some(p) ==> p@ == (DecimalView { negative, mantissa: mantissa as nat, scale: scale as nat }),
    {
        if negative && mantissa != 0 {
            return None;
        }
        match DecimalValue::from_parts(negative, mantissa, scale) {
            Some(value) => Some(PositiveDecimal { value }),
            None => None,
        }
    }

    /// `mantissa / 10^scale`; `None` unless the mantissa is below 2^96 and the scale at most 28.
    pub fn new(mantissa: u128, scale: u32) -> (r: Option<PositiveDecimal>)
        ensures
            r is Some <==> mantissa < MANTISSA_BOUND && scale <= MAX_SCALE,
            r matches Some(p) ==> p@ == (DecimalView { negative: false, mantissa: mantissa as nat, scale: scale as nat }),
    {
        PositiveDecimal::from_parts(false, mantissa, scale)
    }

    /// Zero.
    pub fn zero() -> (r: PositiveDecimal)
        ensures
            r@ == (DecimalView { negative: false, mantissa: 0, scale: 0 }),
    {
        PositiveDecimal { value: DecimalValue { negative: false, mantissa: 0, scale: 0 } }
    }

    /// The length of a year in days, `365.0`, as `positive::constants::DAYS_IN_A_YEAR`.
    pub fn days_in_a_year() -> (r: PositiveDecimal)
        ensures
            r@ == (DecimalView { negative: false, mantissa: 3650, scale: 1 }),
    {
        PositiveDecimal { value: DecimalValue { negative: false, mantissa: 3650, scale: 1 } }
    }

    /// The decimal held.
    pub fn to_dec(&self) -> (r: DecimalValue)
        ensures
            r@ == self@,
            valid_positive(self@),
    {
        proof {
            use_type_invariant(self);
        }
        self.value
    }

    /// Numeric order, as `Ord` of `positive::Positive`.
    pub fn compare(&self, other: &PositiveDecimal) -> (r: Ordering)
        ensures
            (r == Ordering::Less) == dec_less(self@, other@),
            (r == Ordering::Equal) == dec_same_value(self@, other@),
            (r == Ordering::Greater) == dec_less(other@, self@),
    {
        if decimal_less(&self.value, &other.value) {
            Ordering::Less
        } else if decimal_less(&other.value, &self.value) {
            Ordering::Greater
        } else {
            Ordering::Equal
        }
    }

    /// Whether the two values differ by less than 1e-16: `|a - b| < EPSILON`,
    /// with the subtraction done by `rust_decimal`. The answer is the same with
    /// the operands swapped, and yes for two equal values.
    pub fn within_epsilon(&self, other: &PositiveDecimal) -> (r: bool)
        ensures
            r == dec_less(dec_abs(rust_decimal_sub(self@, other@)), epsilon_view()),
            r == dec_less(dec_abs(rust_decimal_sub(other@, self@)), epsilon_view()),
            dec_same_value(self@, other@) ==> r,
    {
        proof {
            use_type_invariant(self);
            use_type_invariant(other);
            lemma_pow10_positive(rust_decimal_sub(self@, other@).scale);
        }
        let raw = subtract_decimals(&self.value, &other.value);
        let difference = raw.abs();
        let epsilon = DecimalValue { negative: false, mantissa: 1, scale: 16 };
        proof {
            lemma_dec_less_same_value(
                dec_abs(raw@),
                dec_abs(rust_decimal_sub(other@, self@)),
                epsilon_view(),
            );
            if dec_same_value(self@, other@) {
                assert(raw@.mantissa == 0);
                assert(signed_mantissa(difference@) == 0);
                let m = signed_mantissa(difference@);
                let p = pow10(difference@.scale);
                assert(m * pow10(16) == 0) by (nonlinear_arith)
                    requires
                        m == 0,
                ;
                assert(p > 0);
                assert(epsilon@ == epsilon_view());
                assert(signed_mantissa(epsilon@) == 1);
                assert(pow10(epsilon@.scale) == pow10(16));
                assert(m * pow10(epsilon@.scale) == 0);
                assert(signed_mantissa(epsilon@) * p == p) by (nonlinear_arith)
                    requires
                        signed_mantissa(epsilon@) == 1,
                ;
                assert(dec_less(difference@, epsilon@));
            }
        }
        decimal_less(&difference, &epsilon)
    }

    /// The integer part as an `i64`, as `i64::try_from(Positive)`: an error
    /// when it exceeds `i64::MAX`.
    pub fn try_to_i64(&self) -> (r: Result<i64, ::positive::PositiveError>)
        ensures
            r is Ok <==> dec_trunc(self@) <= i64::MAX,
            r matches Ok(v) ==> v == dec_trunc(self@),
    {
        positive_try_into_i64(self)
    }

    /// Parses `s` as `Positive::from_str` does: a decimal literal that is not
    /// negative; text holding a `:` is refused.
    pub fn parse(s: &str) -> (r: Result<PositiveDecimal, ::positive::PositiveError>)
        ensures
            r is Ok <==> positive_from_str(s@) is Some,
            r matches Ok(p) ==> Some(p@) == positive_from_str(s@),
            s@.contains(':') ==> r is Err,
    {
        parse_positive(s)
    }
}

/// `i64::try_from(positive::Positive)`: the value truncated towards zero, or a
/// conversion error when that exceeds `i64::MAX`.
#[verifier::external_body]
fn positive_try_into_i64(p: &PositiveDecimal) -> (r: Result<i64, ::positive::PositiveError>)
    ensures
        r is Ok <==> dec_trunc(p@) <= i64::MAX,
        r matches Ok(v) ==> v == dec_trunc(p@),
{
    let mut d = rust_decimal::Decimal::from_i128_with_scale(p.value.mantissa as i128, p.value.scale);
    d.set_sign_negative(p.value.negative);
    match ::positive::Positive::new_decimal(d) {
        Ok(positive) => i64::try_from(positive),
        Err(e) => Err(e),
    }
}

/// `str::parse::<positive::Positive>()`: parses a decimal literal (digits,
/// `_`, one `.`, a leading sign, or such a literal, `e` or `E` and an exponent)
/// and rejects values below zero; text holding a `:` is never a decimal.
/// Nothing is claimed of the error beyond its presence.
#[verifier::external_body]
fn parse_positive(s: &str) -> (r: Result<PositiveDecimal, ::positive::PositiveError>)
    ensures
        r is Ok <==> positive_from_str(s@) is Some,
        r matches Ok(p) ==> Some(p@) == positive_from_str(s@),
        s@.contains(':') ==> r is Err,
{
    match s.parse::<::positive::Positive>() {
        Ok(p) => {
            let d = p.to_dec();
            Ok(
                PositiveDecimal {
                    value: DecimalValue {
                        negative: d.is_sign_negative(),
                        mantissa: d.mantissa().unsigned_abs(),
                        scale: d.scale(),
                    },
                },
            )
        },
        Err(e) => Err(e),
    }
}

} // verus!
