use personal_log_ai::dates::{is_before, CivilDate};
use personal_log_ai::due::{due_date_of, extract_due_date, extract_due_date_on};

fn d(year: i32, month: u32, day: u32) -> CivilDate {
    CivilDate { year, month, day }
}

#[test]
fn day_shifts_cross_months_and_years() {
    assert_eq!(due_date_of("明天", &d(2024, 2, 28)), Some(d(2024, 2, 29)));
    assert_eq!(due_date_of("明天", &d(2023, 2, 28)), Some(d(2023, 3, 1)));
    assert_eq!(due_date_of("后天", &d(2024, 12, 31)), Some(d(2025, 1, 2)));
    assert_eq!(due_date_of("明天", &d(262142, 12, 31)), None);
}

#[test]
fn weekdays_come_from_the_calendar() {
    assert_eq!(due_date_of("这周五", &d(2026, 7, 12)), Some(d(2026, 7, 10)));
    assert_eq!(due_date_of("这周五", &d(1970, 1, 1)), Some(d(1970, 1, 2)));
    assert_eq!(due_date_of("这周", &d(2026, 7, 13)), Some(d(2026, 7, 17)));
}

#[test]
fn month_days_must_exist() {
    assert_eq!(due_date_of("2月29日", &d(2024, 1, 10)), Some(d(2024, 2, 29)));
    assert_eq!(due_date_of("2月29日", &d(2023, 1, 10)), None);
    assert_eq!(due_date_of("13/40", &d(2023, 1, 10)), None);
    assert_eq!(due_date_of("2月29日", &d(2024, 3, 1)), Some(d(2024, 2, 29)));
}

#[test]
fn dates_are_written_year_month_day() {
    assert_eq!(extract_due_date_on("今天", &d(2026, 7, 5)), Some("2026-07-05".to_string()));
    assert_eq!(extract_due_date_on("今天", &d(12, 1, 1)), Some("0012-01-01".to_string()));
    assert_eq!(extract_due_date_on("下月", &d(2026, 12, 5)), Some("2027-01-28".to_string()));
    let today = extract_due_date("今天").expect("today");
    assert_eq!(today.len(), 10);
    assert_eq!(&today[4..5], "-");
}

#[test]
fn chronological_order() {
    assert!(is_before(&d(2025, 12, 31), &d(2026, 1, 1)));
    assert!(is_before(&d(2026, 1, 1), &d(2026, 1, 2)));
    assert!(!is_before(&d(2026, 1, 1), &d(2026, 1, 1)));
    assert!(!is_before(&d(2026, 2, 1), &d(2026, 1, 31)));
}
