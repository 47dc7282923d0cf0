use personal_log_ai::stats::{format_duration, format_duration_human};

#[test]
fn test_format_duration_human() {
    assert_eq!(format_duration_human(0), "0s");
    assert_eq!(format_duration_human(30), "30s");
    assert_eq!(format_duration_human(90), "1m 30s");
    assert_eq!(format_duration_human(60), "1m");
    assert_eq!(format_duration_human(3600), "1h");
    assert_eq!(format_duration_human(8100), "2h 15m");
}

#[test]
fn test_format_duration() {
    assert_eq!(format_duration(0), "0s");
    assert_eq!(format_duration(30), "30s");
    assert_eq!(format_duration(90), "1m 30s");
    assert_eq!(format_duration(3661), "1h 1m");
}

#[test]
fn format_duration_keeps_zero_minutes_and_seconds() {
    assert_eq!(format_duration(3600), "1h 0m");
    assert_eq!(format_duration(60), "1m 0s");
}

#[test]
fn format_duration_negative_keeps_seconds_part() {
    assert_eq!(format_duration(-5), "-5s");
    assert_eq!(format_duration(-3700), "-40s");
    assert_eq!(format_duration(-60), "0s");
    assert_eq!(format_duration(i64::MIN), "-8s");
}

#[test]
fn format_duration_human_negative_is_zero() {
    assert_eq!(format_duration_human(-1), "0s");
    assert_eq!(format_duration_human(i64::MIN), "0s");
}

#[test]
fn format_duration_human_large() {
    assert_eq!(format_duration_human(i64::MAX), "2562047788015215h 30m");
}
