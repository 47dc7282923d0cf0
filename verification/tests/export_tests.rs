use personal_log_ai::export::{cleanup_cutoff, csv_escape, events_csv, focus_cleanup_cutoff, CsvRow};

#[test]
fn csv_fields_are_quoted_when_needed() {
    assert_eq!(csv_escape("plain"), "plain");
    assert_eq!(csv_escape("a,b"), "\"a,b\"");
    assert_eq!(csv_escape("say \"hi\""), "\"say \"\"hi\"\"\"");
    assert_eq!(csv_escape("two\nlines"), "\"two\nlines\"");
    assert_eq!(csv_escape(""), "");
}

#[test]
fn csv_export_of_events() {
    let rows = vec![
        CsvRow {
            timestamp: 1700000000,
            event_type: "keydown".to_string(),
            app_name: Some("TextEdit".to_string()),
            content: Some("a,b".to_string()),
            session_id: None,
        },
        CsvRow {
            timestamp: -5,
            event_type: "clipboard".to_string(),
            app_name: None,
            content: Some("你好".to_string()),
            session_id: Some("s1".to_string()),
        },
    ];
    assert_eq!(
        events_csv(&rows),
        "timestamp,event_type,app_name,content,session_id\n1700000000,keydown,TextEdit,\"a,b\",\n-5,clipboard,,你好,s1\n"
    );
    assert_eq!(events_csv(&vec![]), "timestamp,event_type,app_name,content,session_id\n");
}

#[test]
fn cleanup_keeps_the_retention_period() {
    assert_eq!(cleanup_cutoff(1_700_000_000_000, 90), 1_700_000_000_000 - 90 * 86_400_000);
    assert_eq!(cleanup_cutoff(0, 0), 0);
    assert_eq!(focus_cleanup_cutoff(1_700_000_000, 90), 1_700_000_000 - 90 * 86400);
}
