use personal_log_ai::focus::{
    browser_script, browser_url_from_output, create_new_session, extract_domain, focus_bucket,
    focus_pending_record, focus_record, focus_target_for, focus_tick, focus_tick_after, is_browser, FocusSession,
    FocusTarget, FOCUS_TICK_SECS,
};
use personal_log_ai::input::AppInfo;

fn app(bundle: &str, name: &str) -> AppInfo {
    AppInfo { bundle_id: bundle.to_string(), name: name.to_string(), window_title: None, pid: 1 }
}

fn target(id: &str) -> FocusTarget {
    FocusTarget { target_type: "app".to_string(), target_id: id.to_string(), target_name: id.to_string() }
}

#[test]
fn domains_of_web_addresses() {
    assert_eq!(extract_domain("https://www.example.com:8080/a"), Some("example.com".to_string()));
    assert_eq!(extract_domain("http://github.com/rust-lang"), Some("github.com".to_string()));
    assert_eq!(extract_domain("https://docs.rs"), Some("docs.rs".to_string()));
    assert_eq!(extract_domain("ftp://example.com"), None);
    assert_eq!(extract_domain("https://"), None);
    assert_eq!(extract_domain("https://www./x"), None);
}

#[test]
fn browsers_and_their_scripts() {
    assert!(is_browser("com.google.Chrome"));
    assert!(!is_browser("com.apple.TextEdit"));
    assert_eq!(
        browser_script("com.apple.Safari"),
        Some("tell application \"Safari\" to get URL of current tab of front window".to_string())
    );
    assert_eq!(
        browser_script("org.mozilla.firefox"),
        Some("tell application \"Firefox\" to get URL of active tab of front window".to_string())
    );
    assert_eq!(browser_script("com.apple.TextEdit"), None);
    assert_eq!(browser_url_from_output("  https://a.b/c \n"), Some("https://a.b/c".to_string()));
    assert_eq!(browser_url_from_output("missing value"), None);
}

#[test]
fn focus_targets() {
    let t = focus_target_for(&app("com.google.Chrome", "Chrome"), Some("https://www.github.com/x"));
    assert_eq!(t.target_type, "domain");
    assert_eq!(t.target_id, "domain:github.com");
    assert_eq!(t.target_name, "Chrome (github.com)");
    let t = focus_target_for(&app("com.google.Chrome", "Chrome"), Some("chrome://settings"));
    assert_eq!(t.target_type, "app");
    assert_eq!(t.target_id, "com.google.Chrome");
    let t = focus_target_for(&app("com.apple.TextEdit", "TextEdit"), Some("https://a.com"));
    assert_eq!(t.target_id, "com.apple.TextEdit");
    assert_eq!(t.target_name, "TextEdit");
}

#[test]
fn same_target_extends_the_session() {
    let mut current: Option<FocusSession> = None;
    assert!(focus_pending_record(&current, &target("a"), 0).is_none());
    focus_tick_after(&mut current, &target("a"), 100, 0, true);
    assert!(focus_pending_record(&current, &target("a"), 5).is_none());
    focus_tick_after(&mut current, &target("a"), 105, 5, true);
    let s = current.as_ref().expect("session");
    assert_eq!(s.start_time, 100);
    assert_eq!(s.duration, 2 * FOCUS_TICK_SECS);
}

#[test]
fn a_new_target_stores_the_session_first() {
    let mut current: Option<FocusSession> = None;
    focus_tick_after(&mut current, &target("a"), 100, 0, true);
    focus_tick_after(&mut current, &target("a"), 105, 5, true);
    let rec = focus_pending_record(&current, &target("b"), 5).expect("record");
    assert_eq!(rec.start_time, 100);
    assert_eq!(rec.end_time, 110);
    assert_eq!(rec.duration, 10);
    assert_eq!(rec.target_id, "a");
    focus_tick_after(&mut current, &target("b"), 110, 5, true);
    let s = current.as_ref().expect("session");
    assert_eq!(s.target.target_id, "b");
    assert_eq!(s.start_time, 110);
    assert_eq!(s.duration, FOCUS_TICK_SECS);
}

#[test]
fn a_session_that_could_not_be_stored_stays() {
    let mut current: Option<FocusSession> = None;
    focus_tick_after(&mut current, &target("a"), 100, 0, true);
    focus_tick_after(&mut current, &target("b"), 105, 5, false);
    let s = current.as_ref().expect("session");
    assert_eq!(s.target.target_id, "a");
    assert_eq!(s.start_time, 100);
    assert_eq!(s.duration, FOCUS_TICK_SECS);
}

#[test]
fn a_stale_session_is_dropped() {
    let mut current: Option<FocusSession> = None;
    focus_tick_after(&mut current, &target("a"), 100, 0, true);
    assert!(focus_pending_record(&current, &target("b"), 61).is_none());
    focus_tick_after(&mut current, &target("b"), 500, 61, false);
    assert_eq!(current.as_ref().expect("session").target.target_id, "b");
}

#[test]
fn focus_tick_with_the_clock() {
    let mut current: Option<FocusSession> = None;
    let (idle, rec) = focus_tick(&current, &target("a"));
    assert!(rec.is_none());
    focus_tick_after(&mut current, &target("a"), 100, idle, true);
    let (idle, rec) = focus_tick(&current, &target("a"));
    assert!(rec.is_none());
    focus_tick_after(&mut current, &target("a"), 105, idle, true);
    let (idle, rec) = focus_tick(&current, &target("b"));
    assert!(idle <= 60);
    assert_eq!(rec.expect("record").duration, 10);
}

#[test]
fn records_and_buckets() {
    let s = create_new_session(&target("x"), 1_700_000_000);
    let rec = focus_record(&s);
    assert_eq!(rec.end_time, 1_700_000_005);
    assert_eq!(focus_bucket(0), Some(("1970-01-01".to_string(), 0)));
    assert_eq!(focus_bucket(1_700_000_000), Some(("2023-11-14".to_string(), 22)));
    assert_eq!(focus_bucket(-1), Some(("1969-12-31".to_string(), 23)));
    assert_eq!(focus_bucket(i64::MAX), None);
}
