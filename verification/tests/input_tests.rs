use personal_log_ai::ime::{IMETextEvent, IMETextType};
use personal_log_ai::input::{
    app_from_ime_event, app_switch_detected, dedup_after, record_key_event_after, take_idle_session, take_session_if_idle, check_accessibility_permission, get_active_app_sync,
    get_realtime_status, has_room, new_input_state, process_ime_text_event, process_ime_text_event_after, record_app_switch,
    record_clipboard_change, record_key_event, record_mouse_click, record_paste_action,
    save_current_session, session_record, set_paused, should_dedup_cgevent_key,
    update_realtime_status, AppInfo, EventMeta,
};

fn app(bundle: &str, name: &str) -> AppInfo {
    AppInfo {
        bundle_id: bundle.to_string(),
        name: name.to_string(),
        window_title: Some("Window".to_string()),
        pid: 42,
    }
}

#[test]
fn key_press_opens_a_session_and_logs_the_key() {
    let mut state = new_input_state();
    let editor = app("com.apple.TextEdit", "TextEdit");
    let r = record_key_event(&mut state, 0, Some("a"), false, &editor, 1000, false, 3);
    let ev = r.event.expect("logged");
    assert_eq!(ev.event_type, "keydown");
    assert_eq!(ev.content, Some("a".to_string()));
    assert_eq!(ev.app_bundle_id, Some("com.apple.TextEdit".to_string()));
    assert!(r.finished.is_none());
    assert_eq!(state.event_count, 1);
    let s = state.session.as_ref().expect("session");
    assert_eq!(s.buffer, "a");
    assert_eq!(s.total_keystrokes, 1);
    assert_eq!(s.start_time, 1000);
}

#[test]
fn backspace_removes_the_last_character() {
    let mut state = new_input_state();
    let editor = app("com.apple.TextEdit", "TextEdit");
    record_key_event(&mut state, 0, Some("a"), false, &editor, 1000, false, 3);
    record_key_event(&mut state, 11, Some("b"), false, &editor, 1001, false, 3);
    let r = record_key_event(&mut state, 51, None, true, &editor, 1002, false, 3);
    assert_eq!(r.event.expect("logged").event_type, "keyup");
    let s = state.session.as_ref().expect("session");
    assert_eq!(s.buffer, "a");
    assert_eq!(s.backspace_count, 1);
    assert_eq!(s.total_keystrokes, 3);
    assert_eq!(state.event_count, 3);
}

#[test]
fn nothing_is_recorded_while_paused_blacklisted_or_in_password_fields() {
    let mut state = new_input_state();
    let editor = app("com.apple.TextEdit", "TextEdit");
    set_paused(&mut state, true);
    let r = record_key_event(&mut state, 0, Some("a"), false, &editor, 1000, false, 3);
    assert!(r.event.is_none() && r.finished.is_none());
    assert!(record_mouse_click(&mut state, true, &editor, 1000).is_none());
    assert!(record_clipboard_change(&mut state, "text", "x", &editor, 1000).is_none());
    set_paused(&mut state, false);
    let vault = app("com.bitwarden.desktop", "Bitwarden");
    let r = record_key_event(&mut state, 0, Some("a"), false, &vault, 1000, false, 3);
    assert!(r.event.is_none());
    assert!(record_mouse_click(&mut state, true, &vault, 1000).is_none());
    let r = record_key_event(&mut state, 0, Some("a"), false, &editor, 1000, true, 3);
    assert!(r.event.is_none());
    assert_eq!(state.event_count, 0);
    assert!(state.session.is_none());
}

#[test]
fn typing_in_another_app_hands_back_the_old_session() {
    let mut state = new_input_state();
    let editor = app("com.apple.TextEdit", "TextEdit");
    let chat = app("com.tencent.xinWeChat", "WeChat");
    record_key_event(&mut state, 0, Some("x"), false, &editor, 1000, false, 3);
    let r = record_key_event(&mut state, 0, Some("y"), false, &chat, 2000, false, 3);
    let old = r.finished.expect("finished");
    assert_eq!(old.app_bundle_id, "com.apple.TextEdit");
    assert_eq!(old.buffer, "x");
    let s = state.session.as_ref().expect("session");
    assert_eq!(s.app_bundle_id, "com.tencent.xinWeChat");
    assert_eq!(s.buffer, "y");
    assert_eq!(s.start_time, 2000);
}

#[test]
fn mouse_clicks_follow_the_mouse_setting() {
    let mut state = new_input_state();
    let editor = app("com.apple.TextEdit", "TextEdit");
    assert!(record_mouse_click(&mut state, false, &editor, 5).is_none());
    let ev = record_mouse_click(&mut state, true, &editor, 5).expect("logged");
    assert_eq!(ev.event_type, "mouse_click");
    assert!(matches!(ev.meta, EventMeta::MouseClick));
    assert_eq!(state.event_count, 1);
}

#[test]
fn clipboard_and_paste_drop_secrets() {
    let mut state = new_input_state();
    let editor = app("com.apple.TextEdit", "TextEdit");
    assert!(record_clipboard_change(&mut state, &format!("{}{}{}", "AK", "IA", "Q".repeat(16)), "src", &editor, 1).is_none());
    let ev = record_clipboard_change(&mut state, "你好", "src", &editor, 1).expect("logged");
    assert_eq!(ev.event_type, "clipboard");
    assert_eq!(ev.content, Some("你好".to_string()));
    assert!(ev.window_title.is_none());
    match ev.meta {
        EventMeta::Clipboard { source_app, length } => {
            assert_eq!(source_app, "src");
            assert_eq!(length, 6);
        }
        _ => panic!("wrong metadata"),
    }
    assert!(record_paste_action(&mut state, "", &editor, 2).is_none());
    assert!(record_paste_action(&mut state, "4111111111111111", &editor, 2).is_none());
    let ev = record_paste_action(&mut state, "abc", &editor, 2).expect("logged");
    assert_eq!(ev.event_type, "paste");
    assert_eq!(state.event_count, 2);
}

#[test]
fn app_switch_logs_focus_and_ends_the_session() {
    let mut state = new_input_state();
    let editor = app("com.apple.TextEdit", "TextEdit");
    record_key_event(&mut state, 0, Some("x"), false, &editor, 1000, false, 3);
    let r = record_app_switch(&mut state, "com.apple.Safari", "Safari", 7, None, 3000);
    let ev = r.event.expect("logged");
    assert_eq!(ev.event_type, "app_focus");
    assert_eq!(ev.app_name, Some("Safari".to_string()));
    assert_eq!(r.finished.expect("finished").buffer, "x");
    let s = state.session.as_ref().expect("session");
    assert_eq!(s.app_bundle_id, "com.apple.Safari");
    assert_eq!(s.buffer, "");
    assert!(app_switch_detected("com.apple.TextEdit", "com.apple.Safari"));
    assert!(!app_switch_detected("com.apple.Safari", "com.apple.Safari"));
    assert!(!app_switch_detected("", "com.apple.Safari"));
}

#[test]
fn saving_the_session_leaves_none() {
    let mut state = new_input_state();
    let editor = app("com.apple.TextEdit", "TextEdit");
    assert!(save_current_session(&mut state).is_none());
    record_key_event(&mut state, 0, Some("x"), false, &editor, 1000, false, 3);
    let s = save_current_session(&mut state).expect("session");
    assert_eq!(s.buffer, "x");
    assert!(state.session.is_none());
}

#[test]
fn session_record_summarises_the_text() {
    let mut state = new_input_state();
    let editor = app("com.apple.TextEdit", "TextEdit");
    for (i, ch) in ["T", "O", "D", "O", ":", " ", "买", "牛", "奶"].iter().enumerate() {
        record_key_event(&mut state, 0, Some(ch), false, &editor, 1000 + i as i64, false, 3);
    }
    let s = save_current_session(&mut state).expect("session");
    let rec = session_record(&s, 2500).expect("stored");
    assert_eq!(rec.content, Some("TODO: 买牛奶".to_string()));
    assert_eq!(rec.char_count, 9);
    assert_eq!(rec.text_preview, "TODO: 买牛奶");
    assert_eq!(rec.end_time, 1000 + 2500);
    assert_eq!(rec.duration_sec, 2);
    assert_eq!(rec.total_keystrokes, 9);
    assert_eq!(rec.todo, Some("买牛奶".to_string()));
}

#[test]
fn empty_session_is_not_stored() {
    let mut state = new_input_state();
    record_app_switch(&mut state, "com.apple.Safari", "Safari", 7, None, 3000);
    let s = save_current_session(&mut state).expect("session");
    assert!(session_record(&s, 10).is_none());
}

#[test]
fn long_session_preview_is_cut_at_200_characters() {
    let mut state = new_input_state();
    let editor = app("com.apple.TextEdit", "TextEdit");
    let text = "字".repeat(250);
    let ev = IMETextEvent {
        text_type: IMETextType::Committed,
        text: text.clone(),
        timestamp: 10,
        app_bundle_id: None,
        app_name: None,
    };
    process_ime_text_event(&mut state, &ev, &editor, false, 3);
    let s = save_current_session(&mut state).expect("session");
    let rec = session_record(&s, 0).expect("stored");
    assert_eq!(rec.char_count, 250);
    assert_eq!(rec.text_preview.chars().count(), 200);
    assert_eq!(rec.todo, None);
}

#[test]
fn input_method_text_is_logged_and_typed() {
    let mut state = new_input_state();
    let editor = app("com.apple.TextEdit", "TextEdit");
    let composing = IMETextEvent {
        text_type: IMETextType::Composing,
        text: "ni".to_string(),
        timestamp: 10,
        app_bundle_id: None,
        app_name: None,
    };
    let r = process_ime_text_event(&mut state, &composing, &editor, false, 3);
    assert!(r.event.is_none());
    let committed = IMETextEvent { text_type: IMETextType::Committed, text: "你好".to_string(), ..composing };
    let r = process_ime_text_event(&mut state, &committed, &editor, false, 3);
    let ev = r.event.expect("logged");
    assert_eq!(ev.event_type, "ime_committed");
    match ev.meta {
        EventMeta::ImeText { committed, length } => {
            assert!(committed);
            assert_eq!(length, 2);
        }
        _ => panic!("wrong metadata"),
    }
    let s = state.session.as_ref().expect("session");
    assert_eq!(s.buffer, "你好");
    assert_eq!(s.total_keystrokes, 2);
}

#[test]
fn direct_input_method_text_is_not_logged_twice() {
    let mut state = new_input_state();
    let editor = app("com.apple.TextEdit", "TextEdit");
    let direct = IMETextEvent {
        text_type: IMETextType::Direct,
        text: "abc".to_string(),
        timestamp: 10,
        app_bundle_id: None,
        app_name: None,
    };
    let r = process_ime_text_event(&mut state, &direct, &editor, false, 3);
    assert_eq!(r.event.expect("logged").event_type, "ime_direct");
    assert!(should_dedup_cgevent_key(&state, "b"));
    assert!(!should_dedup_cgevent_key(&state, "z"));
    let r = record_key_event(&mut state, 11, Some("b"), false, &editor, 11, false, 3);
    assert!(r.event.is_none());
    assert_eq!(state.event_count, 1);
}

#[test]
fn input_method_event_names_its_application() {
    let ev = IMETextEvent {
        text_type: IMETextType::Committed,
        text: "你".to_string(),
        timestamp: 10,
        app_bundle_id: Some("com.apple.Notes".to_string()),
        app_name: None,
    };
    let a = app_from_ime_event(&ev, Some("Note".to_string())).expect("app");
    assert_eq!(a.bundle_id, "com.apple.Notes");
    assert_eq!(a.name, "");
    assert_eq!(a.pid, 0);
    let ev = IMETextEvent { app_bundle_id: None, ..ev };
    assert!(app_from_ime_event(&ev, None).is_none());
}

#[test]
fn realtime_status_follows_pause_and_updates() {
    let mut state = new_input_state();
    let st = get_realtime_status(&state);
    assert!(st.recording);
    assert!(!st.paused);
    assert_eq!(st.today_events, 0);
    assert!(st.app_name.is_none());
    let editor = app("com.apple.TextEdit", "TextEdit");
    record_mouse_click(&mut state, true, &editor, 5);
    update_realtime_status(&mut state, &editor, 77);
    set_paused(&mut state, true);
    let st = get_realtime_status(&state);
    assert!(st.paused);
    assert!(!st.recording);
    assert_eq!(st.timestamp, Some(77));
    assert_eq!(st.app_name, Some("TextEdit".to_string()));
    assert_eq!(st.today_events, 1);
}

#[test]
fn room_and_platform_placeholders() {
    let state = new_input_state();
    assert!(has_room(&state, 10));
    assert!(!has_room(&state, 3_000_000_000));
    let a = get_active_app_sync();
    assert_eq!(a.bundle_id, "com.example.dev");
    assert_eq!(a.window_title, Some("Editor".to_string()));
    assert!(check_accessibility_permission());
}

#[test]
fn dedup_follows_the_time_since_direct_text() {
    let mut state = new_input_state();
    let editor = app("com.apple.TextEdit", "TextEdit");
    assert!(!dedup_after(&state, "a", 0));
    let direct = IMETextEvent {
        text_type: IMETextType::Direct,
        text: "abc".to_string(),
        timestamp: 10,
        app_bundle_id: None,
        app_name: None,
    };
    process_ime_text_event(&mut state, &direct, &editor, false, 3);
    assert!(dedup_after(&state, "b", 0));
    assert!(dedup_after(&state, "bc", 499));
    assert!(!dedup_after(&state, "b", 500));
    assert!(!dedup_after(&state, "z", 10));
}

#[test]
fn idle_sessions_end_after_the_timeout() {
    let mut state = new_input_state();
    let editor = app("com.apple.TextEdit", "TextEdit");
    assert!(take_session_if_idle(&mut state, 60, 1000).is_none());
    record_key_event(&mut state, 0, Some("x"), false, &editor, 1000, false, 3);
    assert!(take_session_if_idle(&mut state, 60, 60).is_none());
    assert!(state.session.is_some());
    let s = take_session_if_idle(&mut state, 60, 61).expect("ended");
    assert_eq!(s.buffer, "x");
    assert!(state.session.is_none());
    record_key_event(&mut state, 0, Some("y"), false, &editor, 2000, false, 3);
    assert!(take_idle_session(&mut state, 3600).is_none());
    assert!(state.session.is_some());
}

#[test]
fn a_key_after_a_pause_counts_a_pause() {
    let mut state = new_input_state();
    let editor = app("com.apple.TextEdit", "TextEdit");
    record_key_event_after(&mut state, 0, Some("a"), false, &editor, 1000, false, 10_000, 0, 3);
    record_key_event_after(&mut state, 0, Some("b"), false, &editor, 1100, false, 10_000, 3000, 3);
    assert_eq!(state.session.as_ref().unwrap().pause_count, 0);
    record_key_event_after(&mut state, 0, Some("c"), false, &editor, 5000, false, 10_000, 3001, 3);
    let s = state.session.as_ref().unwrap();
    assert_eq!(s.pause_count, 1);
    assert_eq!(s.buffer, "abc");
    assert_eq!(s.total_keystrokes, 3);
}

#[test]
fn keys_seen_as_direct_text_are_skipped_only_within_500_ms() {
    let mut state = new_input_state();
    let editor = app("com.apple.TextEdit", "TextEdit");
    let direct = IMETextEvent {
        text_type: IMETextType::Direct,
        text: "abc".to_string(),
        timestamp: 10,
        app_bundle_id: None,
        app_name: None,
    };
    process_ime_text_event(&mut state, &direct, &editor, false, 3);
    let r = record_key_event_after(&mut state, 11, Some("b"), false, &editor, 11, false, 499, 0, 3);
    assert!(r.event.is_none());
    assert_eq!(state.event_count, 1);
    let r = record_key_event_after(&mut state, 11, Some("b"), false, &editor, 12, false, 500, 0, 3);
    assert_eq!(r.event.expect("logged").content, Some("b".to_string()));
    assert_eq!(state.event_count, 2);
    assert_eq!(state.session.as_ref().unwrap().buffer, "abcb");
}

#[test]
fn blacklisted_apps_and_pausing_silence_clipboard_and_paste() {
    let mut state = new_input_state();
    let vault = app("com.bitwarden.desktop", "Bitwarden");
    assert!(record_clipboard_change(&mut state, "hello", "src", &vault, 1).is_none());
    let editor = app("com.apple.TextEdit", "TextEdit");
    set_paused(&mut state, true);
    assert!(record_paste_action(&mut state, "hello", &editor, 2).is_none());
    set_paused(&mut state, false);
    assert!(record_paste_action(&mut state, "hello", &editor, 3).is_some());
    assert_eq!(state.event_count, 1);
}

#[test]
fn input_method_text_after_a_long_gap_counts_a_pause() {
    let mut state = new_input_state();
    let editor = app("com.apple.TextEdit", "TextEdit");
    let ev = IMETextEvent {
        text_type: IMETextType::Committed,
        text: "你好".to_string(),
        timestamp: 10,
        app_bundle_id: None,
        app_name: None,
    };
    process_ime_text_event_after(&mut state, &ev, &editor, false, 0, 3);
    process_ime_text_event_after(&mut state, &ev, &editor, false, 3000, 3);
    assert_eq!(state.session.as_ref().expect("session").pause_count, 0);
    process_ime_text_event_after(&mut state, &ev, &editor, false, 3001, 3);
    let s = state.session.as_ref().expect("session");
    assert_eq!(s.pause_count, 1);
    assert_eq!(s.buffer, "你好你好你好");
    assert_eq!(s.total_keystrokes, 6);
}
