use chrono::{Duration, TimeZone, Utc};
use expiration_date::expiration::ExpirationDate;
use expiration_date::{ExpirationDateError, PositiveDecimal, TimeRemaining, UtcDateTime};

fn instant(dt: chrono::DateTime<Utc>) -> UtcDateTime {
    UtcDateTime::from_timestamp(dt.timestamp(), dt.timestamp_subsec_nanos()).unwrap()
}

fn same(a: &UtcDateTime, b: &chrono::DateTime<Utc>) -> bool {
    a.timestamp() == b.timestamp() && a.subsec_nanos() == b.timestamp_subsec_nanos()
}

#[test]
fn conversion_test_get_date_from_datetime() {
    let future_date = Utc::now() + Duration::days(60);
    let expiration = ExpirationDate::DateTime(instant(future_date));
    let result = expiration.get_date(None).unwrap();
    assert!(same(&result, &future_date));
}

#[test]
fn conversion_test_get_date_from_past_datetime() {
    let past_date = Utc::now() - Duration::days(30);
    let expiration = ExpirationDate::DateTime(instant(past_date));
    let result = expiration.get_date(None).unwrap();
    assert!(same(&result, &past_date));
}

#[test]
fn conversion_test_default() {
    let default = ExpirationDate::default();
    match default {
        ExpirationDate::Days(days) => {
            let d = days.to_dec();
            assert_eq!((d.is_sign_negative(), d.mantissa(), d.scale()), (false, 3650, 1));
        }
        _ => panic!("Expected Days variant"),
    }
}

#[test]
fn conversion_test_get_date_string_days() {
    let today = Utc::now();
    let expiration = ExpirationDate::Days(PositiveDecimal::new(300, 1).unwrap());
    let date_str = expiration.get_date_string().unwrap();
    let expected_date = (today + Duration::days(30)).format("%Y-%m-%d").to_string();
    assert_eq!(date_str, expected_date);
}

#[test]
fn conversion_test_get_date_string_datetime() {
    let specific_date = Utc.with_ymd_and_hms(2024, 12, 31, 0, 0, 0).unwrap();
    let expiration = ExpirationDate::DateTime(instant(specific_date));
    assert_eq!(expiration.get_date_string().unwrap(), "2024-12-31");
}

#[test]
fn days_count_whole_days_from_the_base() {
    let now = instant(Utc.with_ymd_and_hms(2025, 3, 10, 9, 15, 0).unwrap());
    let exp = ExpirationDate::Days(PositiveDecimal::new(25, 1).unwrap());
    // 2.5 days: only the whole days are added.
    let at = exp.get_date_with_base(&now, None).unwrap();
    assert_eq!(at.timestamp(), now.timestamp() + 2 * 86400);
    // The reference datetime, when set, replaces the current time.
    let reference = instant(Utc.with_ymd_and_hms(2020, 1, 1, 0, 0, 0).unwrap());
    let at = exp.get_date_with_base(&now, Some(reference)).unwrap();
    assert_eq!(at.timestamp(), reference.timestamp() + 2 * 86400);
}

#[test]
fn fixed_time_counts_from_half_past_six() {
    let now = instant(Utc.with_ymd_and_hms(2025, 3, 10, 9, 15, 7).unwrap());
    let reference = instant(Utc.with_ymd_and_hms(2020, 1, 1, 0, 0, 0).unwrap());
    let exp = ExpirationDate::Days(PositiveDecimal::new(3, 0).unwrap());
    let at = exp.get_date_with_options_at(true, &now, Some(reference)).unwrap();
    let expected = Utc.with_ymd_and_hms(2025, 3, 13, 18, 30, 0).unwrap();
    assert!(same(&at, &expected));
    // A datetime is its own date, with or without the fixed time.
    let dt = instant(Utc.with_ymd_and_hms(2030, 6, 1, 1, 2, 3).unwrap());
    let at = ExpirationDate::DateTime(dt).get_date_with_options_at(true, &now, None).unwrap();
    assert_eq!(at.timestamp(), dt.timestamp());
}

#[test]
fn too_many_days_are_errors() {
    let now = instant(Utc::now());
    // More whole days than an i64 holds.
    let huge = ExpirationDate::Days(PositiveDecimal::new(10u128.pow(28), 0).unwrap());
    assert!(matches!(huge.get_date_with_base(&now, None), Err(ExpirationDateError::PositiveError(_))));
    // Fits an i64, but leaves the datetime range.
    let far = ExpirationDate::Days(PositiveDecimal::new(1_000_000_000, 0).unwrap());
    assert!(matches!(far.get_date_with_base(&now, None), Err(ExpirationDateError::ArithmeticOverflow(_))));
    assert!(far.get_date_string().is_err());
    assert_eq!(far.display_text(Some(now)), "Invalid Expiration");
}

#[test]
fn display_text_of_a_datetime() {
    let dt = instant(Utc.with_ymd_and_hms(2025, 5, 23, 12, 3, 18).unwrap());
    assert_eq!(ExpirationDate::DateTime(dt).display_text(None), "2025-05-23 12:03:18 UTC");
}

#[test]
fn display_text_of_days() {
    let one_day = ExpirationDate::Days(PositiveDecimal::new(15, 1).unwrap());
    let reference = instant(Utc.with_ymd_and_hms(2020, 1, 1, 0, 0, 0).unwrap());
    assert_eq!(one_day.display_text(Some(reference)), "2020-01-02 00:00:00 UTC");
    let before = Utc::now();
    let shown = one_day.display_text(None);
    let after = Utc::now();
    let expected = |t: chrono::DateTime<Utc>| (t + Duration::days(1)).format("%Y-%m-%d %H:%M:%S UTC").to_string();
    assert!(shown == expected(before) || shown == expected(after), "{shown}");
    let too_many = ExpirationDate::Days(PositiveDecimal::new(10u128.pow(25), 0).unwrap());
    assert_eq!(too_many.display_text(None), "Invalid Expiration");
}

#[test]
fn pending_expirations_only() {
    let now = instant(Utc.with_ymd_and_hms(2025, 3, 10, 9, 15, 0).unwrap());
    let past = ExpirationDate::DateTime(instant(Utc.with_ymd_and_hms(2025, 3, 1, 0, 0, 0).unwrap()));
    assert!(past.resolve_if_pending(&now, None).unwrap().is_none());
    // Zero days resolve to the base itself, which is not pending.
    let zero = ExpirationDate::Days(PositiveDecimal::zero());
    assert!(zero.resolve_if_pending(&now, None).unwrap().is_none());
    let week = ExpirationDate::Days(PositiveDecimal::new(7, 0).unwrap());
    let at = week.resolve_if_pending(&now, None).unwrap().unwrap();
    assert_eq!(at.timestamp(), now.timestamp() + 7 * 86400);
    // From a reference long past, seven days are already gone.
    let reference = instant(Utc.with_ymd_and_hms(2020, 1, 1, 0, 0, 0).unwrap());
    assert!(week.resolve_if_pending(&now, Some(reference)).unwrap().is_none());
}

#[test]
fn seconds_remaining_are_positive_or_none() {
    let now = instant(Utc.with_ymd_and_hms(2025, 3, 10, 9, 15, 0).unwrap());
    let later = instant(Utc.with_ymd_and_hms(2025, 3, 10, 9, 16, 0).unwrap());
    assert_eq!(later.seconds_remaining(&now), Some(60));
    assert_eq!(now.seconds_remaining(&later), None);
    assert_eq!(now.seconds_remaining(&now), None);
    let half_second = UtcDateTime::from_timestamp(now.timestamp(), 500_000_000).unwrap();
    assert_eq!(half_second.seconds_remaining(&now), None);
}

#[test]
fn time_remaining_and_the_reference() {
    let now = instant(Utc.with_ymd_and_hms(2025, 3, 10, 9, 15, 0).unwrap());
    let reference = instant(Utc.with_ymd_and_hms(2020, 1, 1, 0, 0, 0).unwrap());
    let mut kept = Some(reference);
    let days = ExpirationDate::Days(PositiveDecimal::new(425, 1).unwrap());
    match days.time_remaining(&now, &mut kept) {
        TimeRemaining::Days(d) => assert_eq!((d.to_dec().mantissa(), d.to_dec().scale()), (425, 1)),
        _ => panic!("Expected Days"),
    }
    assert_eq!(kept.map(|t| t.timestamp()), Some(reference.timestamp()));
    let later = instant(Utc.with_ymd_and_hms(2025, 3, 11, 9, 15, 0).unwrap());
    let mut kept = None;
    match ExpirationDate::DateTime(later).time_remaining(&now, &mut kept) {
        TimeRemaining::Seconds(s) => assert_eq!(s, 86400),
        _ => panic!("Expected Seconds"),
    }
    assert_eq!(kept.map(|t| t.timestamp()), Some(later.timestamp()));
    assert!(matches!(ExpirationDate::DateTime(now).time_remaining(&later, &mut kept), TimeRemaining::Expired));
    assert_eq!(kept.map(|t| t.timestamp()), Some(now.timestamp()));
}
