use personal_log_ai::dates::CivilDate;
use personal_log_ai::query::{build_event_query, build_event_query_for_day, EventFilter, SqlParam};

fn filter(event_type: Option<&str>, search: Option<&str>, date: Option<&str>) -> EventFilter {
    EventFilter {
        limit: 100,
        offset: 0,
        event_type: event_type.map(|s| s.to_string()),
        search: search.map(|s| s.to_string()),
        date: date.map(|s| s.to_string()),
    }
}

fn text(p: &SqlParam) -> String {
    match p {
        SqlParam::Text(s) => s.clone(),
        SqlParam::Int(i) => i.to_string(),
    }
}

const SELECT: &str = "SELECT id, timestamp, event_type, app_bundle_id, app_name, window_title, content, session_id FROM raw_events ";

#[test]
fn query_without_filters() {
    let q = build_event_query(&filter(None, None, None));
    assert_eq!(q.sql, format!("{} ORDER BY timestamp DESC LIMIT ?1 OFFSET ?2", SELECT));
    assert_eq!(q.params.iter().map(text).collect::<Vec<_>>(), vec!["100", "0"]);
}

#[test]
fn query_with_every_filter() {
    let q = build_event_query(&filter(Some("keydown"), Some("rust"), Some("2024-01-02")));
    assert_eq!(
        q.sql,
        format!(
            "{}WHERE event_type = ?1 AND content LIKE ?2 AND timestamp >= ?3 AND timestamp <= ?4 ORDER BY timestamp DESC LIMIT ?5 OFFSET ?6",
            SELECT
        )
    );
    assert_eq!(
        q.params.iter().map(text).collect::<Vec<_>>(),
        vec!["keydown", "%rust%", "1704153600000", "1704239999999", "100", "0"]
    );
}

#[test]
fn an_unreadable_date_is_left_out() {
    let q = build_event_query(&filter(None, Some("x"), Some("yesterday")));
    assert_eq!(q.sql, format!("{}WHERE content LIKE ?1 ORDER BY timestamp DESC LIMIT ?2 OFFSET ?3", SELECT));
    assert_eq!(q.params.len(), 3);
}

#[test]
fn query_for_a_given_day() {
    let f = EventFilter { limit: 5, offset: 10, ..filter(None, None, None) };
    let q = build_event_query_for_day(&f, Some(CivilDate { year: 1970, month: 1, day: 2 }));
    assert_eq!(q.sql, format!("{}WHERE timestamp >= ?1 AND timestamp <= ?2 ORDER BY timestamp DESC LIMIT ?3 OFFSET ?4", SELECT));
    assert_eq!(q.params.iter().map(text).collect::<Vec<_>>(), vec!["86400000", "172799999", "5", "10"]);
}
