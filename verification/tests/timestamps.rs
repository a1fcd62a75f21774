use ccterm::text::chars_of;
use ccterm::timestamp::{
    days_from_civil, parse_fractional_nanos, parse_i128, parse_i32, parse_iso_ts_to_nanos,
    parse_slack_ts_to_nanos,
};

#[test]
fn days_from_civil_known_dates() {
    assert_eq!(days_from_civil(1970, 1, 1), 0);
    assert_eq!(days_from_civil(1970, 1, 2), 1);
    assert_eq!(days_from_civil(1969, 12, 31), -1);
    assert_eq!(days_from_civil(2000, 3, 1), 11017);
    assert_eq!(days_from_civil(2024, 1, 1), 19723);
    assert_eq!(days_from_civil(2024, 2, 29), 19782);
    assert_eq!(days_from_civil(1600, 1, 1), -135140);
    assert_eq!(days_from_civil(0, 3, 1), -719468);
}

#[test]
fn days_from_civil_is_total() {
    let far = days_from_civil(i32::MAX, i32::MAX, i32::MAX);
    let near = days_from_civil(i32::MIN, i32::MIN, i32::MIN);
    assert!(far > 0 && near < 0);
}

#[test]
fn fractional_nanos_scale_to_nine_digits() {
    assert_eq!(parse_fractional_nanos(""), Some(0));
    assert_eq!(parse_fractional_nanos("5"), Some(500_000_000));
    assert_eq!(parse_fractional_nanos("000001"), Some(1_000));
    assert_eq!(parse_fractional_nanos("123456789"), Some(123_456_789));
    assert_eq!(parse_fractional_nanos("1234567899"), Some(123_456_789));
    assert_eq!(parse_fractional_nanos("123456789xyz"), Some(123_456_789));
    assert_eq!(parse_fractional_nanos("12a"), None);
    assert_eq!(parse_fractional_nanos("-1"), None);
}

#[test]
fn integers_agree_with_std() {
    let cases = [
        "0", "-0", "+0", "12", "-12", "+12", "", "-", "+", "1a", " 1", "1 ", "--1", "007",
        "2147483647", "2147483648", "-2147483648", "-2147483649",
        "170141183460469231731687303715884105727", "170141183460469231731687303715884105728",
        "-170141183460469231731687303715884105728", "-170141183460469231731687303715884105729",
        "99999999999999999999999999999999999999999999",
    ];
    for s in cases {
        assert_eq!(parse_i128(&chars_of(s)), s.parse::<i128>().ok(), "{:?}", s);
        assert_eq!(parse_i32(&chars_of(s)), s.parse::<i32>().ok(), "{:?}", s);
    }
}

#[test]
fn slack_timestamps() {
    assert_eq!(parse_slack_ts_to_nanos("1700.123"), Some(1_700_123_000_000));
    assert_eq!(parse_slack_ts_to_nanos("1704067205.000000"), Some(1_704_067_205_000_000_000));
    assert_eq!(parse_slack_ts_to_nanos("0."), Some(0));
    assert_eq!(parse_slack_ts_to_nanos("-5.5"), Some(-4_500_000_000));
    assert_eq!(parse_slack_ts_to_nanos("1700"), None);
    assert_eq!(parse_slack_ts_to_nanos(""), None);
    assert_eq!(parse_slack_ts_to_nanos("a.1"), None);
    assert_eq!(parse_slack_ts_to_nanos("1.x"), None);
    assert_eq!(parse_slack_ts_to_nanos(".5"), None);
    assert_eq!(parse_slack_ts_to_nanos("1.2.3"), None);
}

#[test]
fn slack_timestamps_at_the_edge_of_128_bits() {
    assert_eq!(
        parse_slack_ts_to_nanos("170141183460469231731687303715.884105727"),
        Some(i128::MAX)
    );
    assert_eq!(parse_slack_ts_to_nanos("170141183460469231731687303715.884105728"), None);
    assert_eq!(
        parse_slack_ts_to_nanos("-170141183460469231731687303716.999999999"),
        Some(-170141183460469231731687303715000000001)
    );
    assert_eq!(parse_slack_ts_to_nanos("-170141183460469231731687303716.0"), None);
    assert_eq!(parse_slack_ts_to_nanos("170141183460469231731687303715884105727.0"), None);
}

#[test]
fn iso_timestamps() {
    assert_eq!(parse_iso_ts_to_nanos("1970-01-01T00:00:00Z"), Some(0));
    assert_eq!(
        parse_iso_ts_to_nanos("2024-01-01T00:00:00Z"),
        Some(1_704_067_200_000_000_000)
    );
    assert_eq!(
        parse_iso_ts_to_nanos("2024-01-01T00:10:00.250Z"),
        Some(1_704_067_800_250_000_000)
    );
    assert_eq!(parse_iso_ts_to_nanos("2024-01-01T00:00:00.Z"), Some(1_704_067_200_000_000_000));
    assert_eq!(parse_iso_ts_to_nanos("2024-01-01T00:00:00"), None);
    assert_eq!(parse_iso_ts_to_nanos("2024-01-01 00:00:00Z"), None);
    assert_eq!(parse_iso_ts_to_nanos("2024-01T00:00:00Z"), None);
    assert_eq!(parse_iso_ts_to_nanos("2024-01-01T00:00Z"), None);
    assert_eq!(parse_iso_ts_to_nanos("2024-01-01T00:00:00.12xZ"), None);
    assert_eq!(parse_iso_ts_to_nanos("2024-01-01-02T00:00:00Z"), None);
    assert_eq!(parse_iso_ts_to_nanos(""), None);
    assert_eq!(parse_iso_ts_to_nanos("Z"), None);
}
