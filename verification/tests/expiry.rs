use ex_open_directory::expiry::{days_from_seconds, days_until_expiry, expiry_days, parse_decimal};

fn s(x: &str) -> String {
    x.to_string()
}

#[test]
fn parses_decimal_numbers() {
    assert_eq!(parse_decimal(&s("0")), Some(0));
    assert_eq!(parse_decimal(&s("007")), Some(7));
    assert_eq!(parse_decimal(&s("133500000000000000")), Some(133_500_000_000_000_000));
    assert_eq!(parse_decimal(&s("9223372036854775807")), Some(9_223_372_036_854_775_807));
}

#[test]
fn refuses_what_is_no_decimal_number() {
    assert_eq!(parse_decimal(&s("")), None);
    assert_eq!(parse_decimal(&s("-1")), None);
    assert_eq!(parse_decimal(&s("+1")), None);
    assert_eq!(parse_decimal(&s("12a")), None);
    assert_eq!(parse_decimal(&s(" 12")), None);
    assert_eq!(parse_decimal(&s("9223372036854775808")), None);
    assert_eq!(parse_decimal(&s("99999999999999999999x")), None);
}

#[test]
fn epoch_difference_is_applied() {
    // 1970-01-01T00:00:00Z as an Active Directory time.
    let epoch: u64 = 116_444_736_000_000_000;
    assert_eq!(days_until_expiry(epoch, 0), 0);
    assert_eq!(days_until_expiry(epoch + 10 * 86_400 * 10_000_000, 0), 10);
    assert_eq!(days_until_expiry(epoch + (10 * 86_400 - 1) * 10_000_000, 0), 9);
    assert_eq!(days_until_expiry(epoch + 10 * 86_400 * 10_000_000, 86_400), 9);
}

#[test]
fn days_never_grow_as_time_passes() {
    let t: u64 = 133_500_000_000_000_000;
    let mut last = i64::MAX;
    for now in [1_700_000_000i64, 1_700_050_000, 1_701_000_000, 1_800_000_000] {
        let d = days_until_expiry(t, now);
        assert!(d >= 0 && d <= last);
        last = d;
    }
}

#[test]
fn extreme_times_do_not_overflow() {
    assert_eq!(days_until_expiry(0, i64::MAX), 0);
    assert!(days_until_expiry(9_223_372_036_854_775_806, i64::MIN) > 0);
}

#[test]
fn expiry_days_of_text() {
    assert_eq!(expiry_days(&None, 0), None);
    assert_eq!(expiry_days(&Some(s("9223372036854775807")), 0), None);
    assert_eq!(expiry_days(&Some(s("116444736000000000")), 0), Some(0));
    assert_eq!(expiry_days(&Some(s("116445600000000000")), 0), Some(1));
}

#[test]
fn days_from_policy_seconds() {
    assert_eq!(days_from_seconds(-1), None);
    assert_eq!(days_from_seconds(0), Some(0));
    assert_eq!(days_from_seconds(-5), Some(0));
    assert_eq!(days_from_seconds(86_399), Some(0));
    assert_eq!(days_from_seconds(86_400), Some(1));
    assert_eq!(days_from_seconds(14 * 86_400 + 5), Some(14));
    assert_eq!(days_from_seconds(i64::MAX), Some(i64::MAX / 86_400));
}
