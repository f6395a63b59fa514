use expiration_date::decimal::{DecimalValue, PositiveDecimal};
use expiration_date::ordering::{compare_days, days_equal};
use expiration_date::ExpirationDateError;
use rust_decimal::Decimal;
use std::cmp::Ordering;

fn pos(m: u128, s: u32) -> PositiveDecimal {
    PositiveDecimal::new(m, s).unwrap()
}

fn to_rust(d: DecimalValue) -> Decimal {
    let mut r = Decimal::from_i128_with_scale(d.mantissa() as i128, d.scale());
    r.set_sign_negative(d.is_sign_negative());
    r
}

#[test]
fn parts_are_checked() {
    assert!(PositiveDecimal::new(1u128 << 96, 0).is_none());
    assert!(PositiveDecimal::new((1u128 << 96) - 1, 28).is_some());
    assert!(PositiveDecimal::new(1, 29).is_none());
    assert!(PositiveDecimal::from_parts(true, 5, 0).is_none());
    assert!(PositiveDecimal::from_parts(true, 0, 0).is_some());
    assert!(DecimalValue::from_parts(true, 5, 0).is_some());
}

#[test]
fn parsing_positive_numbers() {
    let p = PositiveDecimal::parse("42.50").unwrap();
    assert_eq!(to_rust(p.to_dec()), Decimal::new(4250, 2));
    assert!(PositiveDecimal::parse("-1.5").is_err());
    assert!(PositiveDecimal::parse("abc").is_err());
}

#[test]
fn order_is_by_value() {
    assert_eq!(pos(300, 1).compare(&pos(30, 0)), Ordering::Equal);
    assert_eq!(pos(15, 0).compare(&pos(30, 0)), Ordering::Less);
    assert_eq!(pos(45, 0).compare(&pos(30, 0)), Ordering::Greater);
    assert_eq!(pos(1, 28).compare(&PositiveDecimal::zero()), Ordering::Greater);
}

#[test]
fn equality_within_epsilon() {
    // 30 and 30 + EPSILON / 2 are equal.
    assert!(pos(30, 0).within_epsilon(&pos(3_000_000_000_000_000_005, 17)));
    // 100 and 100 + EPSILON are not: the difference is not below EPSILON.
    assert!(!pos(100, 0).within_epsilon(&pos(1_000_000_000_000_000_001, 16)));
    assert!(!pos(30, 0).within_epsilon(&pos(301, 1)));
    assert!(pos(30, 0).within_epsilon(&pos(30, 0)));
}

#[test]
fn whole_days_of_a_decimal() {
    assert_eq!(pos(429, 1).try_to_i64().unwrap(), 42);
    assert_eq!(PositiveDecimal::zero().try_to_i64().unwrap(), 0);
    assert!(pos(10u128.pow(25), 0).try_to_i64().is_err());
}

#[test]
fn day_results_compare_errors_first() {
    let err = || -> Result<PositiveDecimal, ExpirationDateError> {
        Err(ExpirationDateError::ParseError("x".to_string()))
    };
    let ten: Result<PositiveDecimal, ExpirationDateError> = Ok(pos(10, 0));
    let zero: Result<PositiveDecimal, ExpirationDateError> = Ok(PositiveDecimal::zero());
    assert_eq!(compare_days(&zero, &ten), Ordering::Less);
    assert_eq!(compare_days(&ten, &zero), Ordering::Greater);
    assert_eq!(compare_days(&err(), &zero), Ordering::Less);
    assert_eq!(compare_days(&zero, &err()), Ordering::Greater);
    assert_eq!(compare_days(&err(), &err()), Ordering::Equal);
    let other: Result<PositiveDecimal, ExpirationDateError> =
        Err(ExpirationDateError::InvalidDateTime("y".to_string()));
    // "invalid datetime: y" sorts after "parse error: x".
    assert_eq!(compare_days(&err(), &other), Ordering::Greater);
    assert!(days_equal(&ten, &Ok(pos(100, 1))));
    assert!(!days_equal(&err(), &err()));
    assert!(!days_equal(&ten, &err()));
}

#[test]
fn equality_is_symmetric_and_follows_the_order() {
    let max = (1u128 << 96) - 1;
    let values = [
        pos(30, 0),
        pos(3000, 2),
        pos(3_000_000_000_000_000_005, 17),
        pos(1, 28),
        pos(max, 0),
        pos(max, 28),
        pos(max - 1, 0),
        pos(79_228_162_514_264_337_593_543_950, 3),
        PositiveDecimal::zero(),
        PositiveDecimal::from_parts(true, 0, 5).unwrap(),
        pos(0, 12),
    ];
    for a in values.iter() {
        for b in values.iter() {
            let (x, y): (Result<PositiveDecimal, ExpirationDateError>, Result<PositiveDecimal, ExpirationDateError>) =
                (Ok(*a), Ok(*b));
            assert_eq!(a.within_epsilon(b), b.within_epsilon(a));
            assert_eq!(days_equal(&x, &y), days_equal(&y, &x));
            if compare_days(&x, &y) == Ordering::Equal {
                assert!(days_equal(&x, &y));
            }
        }
    }
    // Equal values written at different scales are equal.
    assert!(pos(30, 0).within_epsilon(&pos(3000, 2)));
    assert!(pos(0, 12).within_epsilon(&PositiveDecimal::from_parts(true, 0, 5).unwrap()));
}

#[test]
fn text_with_a_colon_is_no_number() {
    assert!(PositiveDecimal::parse("12:30").is_err());
    assert!(PositiveDecimal::parse("1e5:").is_err());
    assert!(PositiveDecimal::parse("2025-01-01T00:00:00Z").is_err());
}
