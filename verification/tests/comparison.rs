use chrono::{Duration, TimeZone, Utc};
use expiration_date::ordering::{compare_days, days_equal};
use expiration_date::{ExpirationDate, ExpirationDateError, PositiveDecimal, TimeRemaining, UtcDateTime};
use positive::Positive;
use rust_decimal::Decimal;
use std::cmp::Ordering;

fn instant(dt: chrono::DateTime<Utc>) -> UtcDateTime {
    UtcDateTime::from_timestamp(dt.timestamp(), dt.timestamp_subsec_nanos()).unwrap()
}

fn from_positive(p: Positive) -> PositiveDecimal {
    let d = p.to_dec();
    PositiveDecimal::from_parts(d.is_sign_negative(), d.mantissa().unsigned_abs(), d.scale()).unwrap()
}

fn pos(v: f64) -> PositiveDecimal {
    from_positive(Positive::new(v).unwrap())
}

/// The tolerance of equality, 1e-16.
fn epsilon() -> Decimal {
    Decimal::new(1, 16)
}

/// The days until an expiration, as expirations are compared: the days held,
/// the seconds remaining over 86400, or zero once the datetime has passed.
fn days_of(e: &ExpirationDate) -> Result<PositiveDecimal, ExpirationDateError> {
    let mut reference: Option<UtcDateTime> = None;
    match e.time_remaining(&instant(Utc::now()), &mut reference) {
        TimeRemaining::Days(d) => Ok(d),
        TimeRemaining::Expired => Ok(PositiveDecimal::zero()),
        TimeRemaining::Seconds(s) => Positive::new(s as f64 / 86400.0)
            .map(from_positive)
            .map_err(ExpirationDateError::PositiveError),
    }
}

fn eq(a: &ExpirationDate, b: &ExpirationDate) -> bool {
    days_equal(&days_of(a), &days_of(b))
}

fn cmp(a: &ExpirationDate, b: &ExpirationDate) -> Ordering {
    compare_days(&days_of(a), &days_of(b))
}

fn same_days(a: &ExpirationDate, b: &ExpirationDate) -> bool {
    match (a, b) {
        (ExpirationDate::Days(x), ExpirationDate::Days(y)) => {
            let (x, y) = (x.to_dec(), y.to_dec());
            (x.is_sign_negative(), x.mantissa(), x.scale()) == (y.is_sign_negative(), y.mantissa(), y.scale())
        }
        _ => false,
    }
}

#[test]
fn tests_test_comparisons_and_sorting() {
    let d1 = ExpirationDate::Days(from_positive(Positive::ONE));
    let d2 = ExpirationDate::Days(from_positive(Positive::TEN));
    let mut list = [d2, d1];
    list.sort_by(cmp);
    assert!(same_days(&list[0], &d1));
}

#[test]
fn tests_test_partial_eq_days_variants_equal() {
    let date1 = ExpirationDate::Days(pos(30.0));
    let date2 = ExpirationDate::Days(pos(30.0));
    assert!(eq(&date1, &date2));
}

#[test]
fn tests_test_partial_eq_days_variants_within_epsilon() {
    let date1 = ExpirationDate::Days(pos(30.0));
    let date2 = ExpirationDate::Days(from_positive(
        Positive::new_decimal(Decimal::new(300, 1) + epsilon() / Decimal::new(20, 1)).unwrap(),
    ));
    assert!(eq(&date1, &date2));
}

#[test]
fn tests_test_partial_eq_days_variants_outside_epsilon() {
    let date1 = ExpirationDate::Days(pos(30.0));
    let date2 = ExpirationDate::Days(pos(30.1));
    assert!(!eq(&date1, &date2));
}

#[test]
fn tests_test_partial_eq_datetime_variants_equal() {
    let datetime = Utc.with_ymd_and_hms(2024, 12, 15, 16, 0, 0).unwrap();
    let date1 = ExpirationDate::DateTime(instant(datetime));
    let date2 = ExpirationDate::DateTime(instant(datetime));
    assert!(eq(&date1, &date2));
}

#[test]
fn tests_test_partial_eq_datetime_variants_different() {
    let datetime1 = Utc.with_ymd_and_hms(2027, 12, 15, 16, 0, 0).unwrap();
    let datetime2 = Utc.with_ymd_and_hms(2027, 12, 16, 16, 0, 0).unwrap();
    let date1 = ExpirationDate::DateTime(instant(datetime1));
    let date2 = ExpirationDate::DateTime(instant(datetime2));
    assert!(!eq(&date1, &date2));
}

#[test]
fn tests_test_partial_eq_mixed_variants_with_zero_fallback() {
    let days_date = ExpirationDate::Days(from_positive(Positive::ZERO));
    // A past DateTime should clamp to ZERO days.
    let past_datetime = Utc::now() - Duration::days(10);
    let datetime_date = ExpirationDate::DateTime(instant(past_datetime));
    assert!(eq(&days_date, &datetime_date));
}

#[test]
fn tests_test_eq_trait_consistency() {
    let date1 = ExpirationDate::Days(pos(30.0));
    let date2 = ExpirationDate::Days(pos(30.0));
    let date3 = ExpirationDate::Days(pos(30.0));

    // Reflexive
    assert!(eq(&date1, &date1));
    // Symmetric
    assert!(eq(&date1, &date2));
    assert!(eq(&date2, &date1));
    // Transitive
    assert!(eq(&date1, &date2));
    assert!(eq(&date2, &date3));
    assert!(eq(&date1, &date3));
}

#[test]
fn tests_test_partial_ord_returns_some() {
    let date1 = ExpirationDate::Days(pos(15.0));
    let date2 = ExpirationDate::Days(pos(30.0));
    let result = Some(cmp(&date1, &date2));
    assert!(result.is_some());
    assert_eq!(result.unwrap(), Ordering::Less);
}

#[test]
fn tests_test_ord_days_variants_less() {
    let date1 = ExpirationDate::Days(pos(15.0));
    let date2 = ExpirationDate::Days(pos(30.0));
    assert_eq!(cmp(&date1, &date2), Ordering::Less);
}

#[test]
fn tests_test_ord_days_variants_greater() {
    let date1 = ExpirationDate::Days(pos(45.0));
    let date2 = ExpirationDate::Days(pos(30.0));
    assert_eq!(cmp(&date1, &date2), Ordering::Greater);

    let date1 = ExpirationDate::Days(pos(45.0));
    let datetime2 = Utc.with_ymd_and_hms(2099, 12, 20, 16, 0, 0).unwrap();
    let date2 = ExpirationDate::DateTime(instant(datetime2));
    assert_eq!(cmp(&date1, &date2), Ordering::Less);

    let datetime1 = Utc.with_ymd_and_hms(2098, 12, 20, 16, 0, 0).unwrap();
    let date1 = ExpirationDate::DateTime(instant(datetime1));
    let datetime2 = Utc.with_ymd_and_hms(2099, 12, 20, 16, 0, 0).unwrap();
    let date2 = ExpirationDate::DateTime(instant(datetime2));
    assert_eq!(cmp(&date1, &date2), Ordering::Less);

    let date1 = ExpirationDate::Days(pos(100_000.0));
    let datetime2 = Utc.with_ymd_and_hms(2099, 12, 20, 16, 0, 0).unwrap();
    let date2 = ExpirationDate::DateTime(instant(datetime2));
    assert_eq!(cmp(&date1, &date2), Ordering::Greater);
}

#[test]
fn tests_test_ord_days_variants_equal() {
    let date1 = ExpirationDate::Days(pos(30.0));
    let date2 = ExpirationDate::Days(pos(30.0));
    assert_eq!(cmp(&date1, &date2), Ordering::Equal);
}

#[test]
fn tests_test_ord_datetime_variants() {
    let datetime1 = Utc.with_ymd_and_hms(2099, 12, 15, 16, 0, 0).unwrap();
    let datetime2 = Utc.with_ymd_and_hms(2099, 12, 20, 16, 0, 0).unwrap();
    let date1 = ExpirationDate::DateTime(instant(datetime1));
    let date2 = ExpirationDate::DateTime(instant(datetime2));
    let result = cmp(&date1, &date2);
    assert!(result != Ordering::Equal);
}

#[test]
fn tests_test_ord_mixed_variants() {
    let days_date = ExpirationDate::Days(pos(20.0));
    let future_datetime = Utc::now() + Duration::days(30);
    let datetime_date = ExpirationDate::DateTime(instant(future_datetime));
    let result = cmp(&days_date, &datetime_date);
    assert!(result != Ordering::Equal);
    assert_eq!(result, Ordering::Less);
}

#[test]
fn tests_test_ord_with_zero_fallback() {
    let date1 = ExpirationDate::Days(from_positive(Positive::ZERO));
    let date2 = ExpirationDate::Days(pos(10.0));
    assert_eq!(cmp(&date1, &date2), Ordering::Less);
    assert_eq!(cmp(&date2, &date1), Ordering::Greater);
}

#[test]
fn tests_test_ord_consistency_with_partial_ord() {
    let date1 = ExpirationDate::Days(pos(25.0));
    let date2 = ExpirationDate::Days(pos(35.0));
    let ord_result = cmp(&date1, &date2);
    // The partial comparison: of the two day counts, by their values.
    let partial_ord_result = match (days_of(&date1), days_of(&date2)) {
        (Ok(x), Ok(y)) => Some(x.compare(&y)),
        _ => None,
    };
    assert_eq!(Some(ord_result), partial_ord_result);
}

#[test]
fn tests_test_ord_transitivity() {
    let date1 = ExpirationDate::Days(pos(10.0));
    let date2 = ExpirationDate::Days(pos(20.0));
    let date3 = ExpirationDate::Days(pos(30.0));
    assert_eq!(cmp(&date1, &date2), Ordering::Less);
    assert_eq!(cmp(&date2, &date3), Ordering::Less);
    assert_eq!(cmp(&date1, &date3), Ordering::Less);
}

#[test]
fn tests_test_ord_antisymmetry() {
    let date1 = ExpirationDate::Days(pos(25.0));
    let date2 = ExpirationDate::Days(pos(25.0));
    assert!(cmp(&date1, &date2) <= Ordering::Equal);
    assert!(cmp(&date2, &date1) <= Ordering::Equal);
    assert_eq!(cmp(&date1, &date2), Ordering::Equal);
}

#[test]
fn tests_test_ord_reflexivity() {
    let date = ExpirationDate::Days(pos(25.0));
    assert_eq!(cmp(&date, &date), Ordering::Equal);

    let datetime = Utc.with_ymd_and_hms(2024, 12, 15, 16, 0, 0).unwrap();
    let datetime_date = ExpirationDate::DateTime(instant(datetime));
    assert_eq!(cmp(&datetime_date, &datetime_date), Ordering::Equal);
}

#[test]
fn tests_test_sorting_expiration_dates() {
    let mut dates = vec![
        ExpirationDate::Days(pos(45.0)),
        ExpirationDate::Days(pos(15.0)),
        ExpirationDate::Days(pos(30.0)),
        ExpirationDate::Days(pos(5.0)),
    ];
    dates.sort_by(cmp);

    let expected = vec![
        ExpirationDate::Days(pos(5.0)),
        ExpirationDate::Days(pos(15.0)),
        ExpirationDate::Days(pos(30.0)),
        ExpirationDate::Days(pos(45.0)),
    ];
    assert_eq!(dates.len(), expected.len());
    for (a, b) in dates.iter().zip(expected.iter()) {
        assert!(eq(a, b));
    }
}

#[test]
fn tests_test_partial_eq_edge_case_epsilon_boundary() {
    let base_value = Positive::HUNDRED;
    let date1 = ExpirationDate::Days(from_positive(base_value));
    let date2 = ExpirationDate::Days(from_positive(Positive::new_decimal(base_value.value() + epsilon()).unwrap()));
    // Difference equals (not less than) EPSILON, so values must be unequal.
    assert!(!eq(&date1, &date2));
}

#[test]
fn tests_test_mixed_variant_comparison_edge_cases() {
    let zero_days = ExpirationDate::Days(from_positive(Positive::ZERO));
    let very_old_datetime = Utc.with_ymd_and_hms(1990, 1, 1, 0, 0, 0).unwrap();
    let old_datetime_date = ExpirationDate::DateTime(instant(very_old_datetime));
    // Both clamp to ZERO days and must compare equal.
    assert!(eq(&zero_days, &old_datetime_date));
}
