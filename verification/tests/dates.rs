use btpis::dates::{
    compute_since_datetime, duration_is_defined, format_duration, format_timestamp,
    parse_duration_relative, parse_json_date, DateError,
};

#[test]
fn timestamps_are_shown_as_dates() {
    assert_eq!(format_timestamp("0"), "01-01-1970");
    assert_eq!(format_timestamp("1700000000000"), "11-14-2023");
    assert_eq!(
        format_timestamp("2024-01-02T03:04:05+01:00"),
        "2024-01-02 02:04:05 UTC"
    );
    assert_eq!(format_timestamp("not a date"), "not a date");
    assert_eq!(format_timestamp(""), "");
}

#[test]
fn json_dates_are_read() {
    assert_eq!(parse_json_date("/Date(1700000000000)/"), Some(1700000000000));
    assert_eq!(parse_json_date("  /Date(-5)/ "), Some(-5));
    assert_eq!(parse_json_date("/Date(x)/"), None);
    assert_eq!(parse_json_date("2024-01-01T00:00:00Z"), Some(1704067200000));
    assert_eq!(parse_json_date("2024-01-01T00:00:00.5"), Some(1704067200500));
    assert_eq!(parse_json_date("2024-01-01T00:00:00"), Some(1704067200000));
    assert_eq!(parse_json_date("yesterday"), None);
}

#[test]
fn durations_are_formatted() {
    assert_eq!(format_duration(0, 3_723_004), "1h 02m 03s");
    assert_eq!(format_duration(0, 123_004), "2m 03.004s");
    assert_eq!(format_duration(1_000, 4_004), "3.004s");
    assert_eq!(format_duration(0, 5), "0.005s");
    assert_eq!(format_duration(7, 7), "0ms");
    assert_eq!(format_duration(5, 0), "—");
}

#[test]
fn relative_durations_are_read() {
    assert_eq!(parse_duration_relative("30s"), Some(30));
    assert_eq!(parse_duration_relative("5m"), Some(300));
    assert_eq!(parse_duration_relative(" 2h "), Some(7200));
    assert_eq!(parse_duration_relative("7d"), Some(604800));
    assert_eq!(parse_duration_relative("7w"), None);
    assert_eq!(parse_duration_relative("d"), None);
    assert_eq!(parse_duration_relative("xm"), None);
    assert!(duration_is_defined("5m"));
    assert!(!duration_is_defined("5é"));
    assert!(!duration_is_defined("18446744073709551615m"));
}

#[test]
fn since_is_relative_to_now() {
    assert_eq!(compute_since_datetime("1h", 7200).unwrap(), "1970-01-01T01:00:00");
    assert_eq!(compute_since_datetime("2d", 100).unwrap(), "1970-01-01T00:00:00");
    assert_eq!(compute_since_datetime("zz", 5), Err(DateError::InvalidDuration));
    assert_eq!(
        DateError::InvalidDuration.message(),
        "invalid duration format. Use: 30s, 5m, 2h, 7d"
    );
    assert_eq!(DateError::InvalidTimestamp.message(), "invalid timestamp");
}
