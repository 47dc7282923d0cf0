use personal_log_ai::dates::CivilDate;
use personal_log_ai::due::{due_date_of, extract_due_date, extract_due_date_on};

fn day(year: i32, month: u32, day: u32) -> CivilDate {
    CivilDate { year, month, day }
}

#[test]
fn test_extract_due_date_relative() {
    let due = extract_due_date("今天要开会");
    assert!(due.is_some());
    let due = extract_due_date("明天需要交报告");
    assert!(due.is_some());
    let due = extract_due_date("后天去检查");
    assert!(due.is_some());
}

#[test]
fn test_extract_due_date_weekday() {
    let due = extract_due_date("下周一开会");
    assert!(due.is_some());
    let due = extract_due_date("这周五提交");
    assert!(due.is_some());
    let due = extract_due_date("下周去出差");
    assert!(due.is_some());
}

#[test]
fn test_extract_due_date_month_day() {
    let due = extract_due_date("7月15日截止");
    assert!(due.is_some());
    let due = extract_due_date("12/25买礼物");
    assert!(due.is_some());
}

#[test]
fn test_extract_due_date_none() {
    let due = extract_due_date("随便一句话");
    assert!(due.is_none());
}

// 2026-07-15 is a Wednesday.
const WEDNESDAY: (i32, u32, u32) = (2026, 7, 15);

fn on(text: &str) -> Option<String> {
    extract_due_date_on(text, &day(WEDNESDAY.0, WEDNESDAY.1, WEDNESDAY.2))
}

#[test]
fn due_date_relative_days() {
    assert_eq!(on("今天要开会"), Some("2026-07-15".to_string()));
    assert_eq!(on("明天需要交报告"), Some("2026-07-16".to_string()));
    assert_eq!(on("后天去检查"), Some("2026-07-17".to_string()));
    // "今天" wins over everything after it.
    assert_eq!(on("明天或者今天"), Some("2026-07-15".to_string()));
}

#[test]
fn due_date_weekdays() {
    // Weekdays of the next Monday-to-Sunday week.
    assert_eq!(on("下周一开会"), Some("2026-07-20".to_string()));
    assert_eq!(on("下周日"), Some("2026-07-26".to_string()));
    assert_eq!(on("这周五提交"), Some("2026-07-17".to_string()));
    assert_eq!(on("本周一"), Some("2026-07-13".to_string()));
    assert_eq!(on("下周去出差"), Some("2026-07-20".to_string()));
    assert_eq!(on("这周要做完"), Some("2026-07-17".to_string()));
}

#[test]
fn due_date_months() {
    assert_eq!(on("这月底"), Some("2026-07-28".to_string()));
    assert_eq!(on("下月初"), Some("2026-08-28".to_string()));
    assert_eq!(
        extract_due_date_on("下月", &day(2026, 12, 3)),
        Some("2027-01-28".to_string())
    );
}

#[test]
fn due_date_month_day_numbers() {
    assert_eq!(on("7月15日截止"), Some("2026-07-15".to_string()));
    assert_eq!(on("7月14号"), Some("2027-07-14".to_string()));
    assert_eq!(on("12/25买礼物"), Some("2026-12-25".to_string()));
    assert_eq!(on("1/2"), Some("2027-01-02".to_string()));
    // An invalid month/day falls through to the slash form.
    assert_eq!(on("13月1日 或 8/1"), Some("2026-08-01".to_string()));
    // Non-ASCII digits match the pattern but read as 0, an invalid month.
    assert_eq!(on("７月15日"), None);
    // The leftmost match is the one read: "123月" matches from its second digit.
    assert_eq!(on("123月4日"), None);
}

#[test]
fn due_date_leap_day() {
    assert_eq!(extract_due_date_on("2月29日", &day(2028, 1, 1)), Some("2028-02-29".to_string()));
    // Passed this year, and next year has no 29 February: this year's date stays.
    assert_eq!(extract_due_date_on("2月29日", &day(2028, 3, 1)), Some("2028-02-29".to_string()));
    assert_eq!(extract_due_date_on("2月29日", &day(2026, 1, 1)), None);
}

#[test]
fn due_date_nothing() {
    assert_eq!(on("随便一句话"), None);
    assert_eq!(due_date_of("没有日期", &day(2026, 7, 15)), None);
}

#[test]
fn due_date_year_formatting() {
    assert_eq!(extract_due_date_on("今天", &day(5, 3, 9)), Some("0005-03-09".to_string()));
    assert_eq!(extract_due_date_on("今天", &day(12345, 3, 9)), Some("+12345-03-09".to_string()));
    assert_eq!(extract_due_date_on("今天", &day(-1, 3, 9)), Some("-0001-03-09".to_string()));
}
