use personal_log_ai::ime::{
    ime_event_from_fields, ime_event_from_line, line_message, record_payload, take_messages, text_type_from_tag,
    IMETextType,
};

#[test]
fn text_types_from_tags() {
    assert_eq!(text_type_from_tag(Some("composing")), IMETextType::Composing);
    assert_eq!(text_type_from_tag(Some("committed")), IMETextType::Committed);
    assert_eq!(text_type_from_tag(Some("direct")), IMETextType::Direct);
    assert_eq!(text_type_from_tag(Some("other")), IMETextType::Direct);
    assert_eq!(text_type_from_tag(None), IMETextType::Direct);
}

#[test]
fn events_from_message_fields() {
    let e = ime_event_from_fields(Some("committed"), Some("你好"), Some(123), Some("com.apple.Notes"), Some("Notes"));
    assert_eq!(e.text_type, IMETextType::Committed);
    assert_eq!(e.text, "你好");
    assert_eq!(e.timestamp, 123);
    assert_eq!(e.app_bundle_id, Some("com.apple.Notes".to_string()));
    assert_eq!(e.app_name, Some("Notes".to_string()));
    let e = ime_event_from_fields(None, None, None, None, None);
    assert_eq!(e.text, "");
    assert!(e.timestamp > 1_600_000_000_000);
    assert!(e.app_bundle_id.is_none());
}

#[test]
fn payload_of_socket_records() {
    assert_eq!(record_payload(&b"{\"text\":\"a\"}\x1e".to_vec()), Some(b"{\"text\":\"a\"}".to_vec()));
    assert_eq!(record_payload(&b"abc".to_vec()), Some(b"abc".to_vec()));
    assert_eq!(record_payload(&b"\x1e".to_vec()), None);
    assert_eq!(record_payload(&Vec::new()), None);
}

#[test]
fn messages_end_at_record_separators_and_line_feeds() {
    let mut pending: Vec<u8> = Vec::new();
    let done = take_messages(&mut pending, b"{\"text\":\"a\"}\x1e17180000|\xe4\xbd");
    assert_eq!(done, vec![b"{\"text\":\"a\"}".to_vec()]);
    assert_eq!(pending, b"17180000|\xe4\xbd".to_vec());
    let done = take_messages(&mut pending, b"\xa0\n\n\x1eabc");
    assert_eq!(done, vec!["17180000|你".as_bytes().to_vec()]);
    assert_eq!(pending, b"abc".to_vec());
}

#[test]
fn line_messages_as_the_readme_writes_them() {
    let e = ime_event_from_line(&"1718000000123|你好".as_bytes().to_vec()).expect("event");
    assert_eq!(e.text_type, IMETextType::Committed);
    assert_eq!(e.text, "你好");
    assert_eq!(e.timestamp, 1718000000123);
    assert!(e.app_bundle_id.is_none());
    assert_eq!(line_message(&b"12|a|b".to_vec()), Some((12, b"a|b".to_vec())));
    assert_eq!(line_message(&b"12|".to_vec()), Some((12, Vec::new())));
    assert_eq!(line_message(&b"|x".to_vec()), None);
    assert_eq!(line_message(&b"1a|x".to_vec()), None);
    assert_eq!(line_message(&b"123".to_vec()), None);
    assert_eq!(line_message(&b"1234567890123456789|x".to_vec()), None);
    assert_eq!(line_message(&b"123456789012345678|x".to_vec()), Some((123456789012345678, b"x".to_vec())));
    assert!(ime_event_from_line(&b"{\"type\":\"committed\"}".to_vec()).is_none());
    assert!(ime_event_from_line(&b"5|\xff".to_vec()).is_none());
}

#[test]
fn a_readme_record_on_the_socket_gives_one_event() {
    let mut pending = Vec::new();
    let messages = take_messages(&mut pending, "1718000000123|你好\n".as_bytes());
    assert_eq!(messages.len(), 1);
    assert!(pending.is_empty());
    let events: Vec<_> = messages.iter().filter_map(ime_event_from_line).collect();
    assert_eq!(events.len(), 1);
    assert_eq!(events[0].text, "你好");
    assert_eq!(events[0].timestamp, 1718000000123);
}
