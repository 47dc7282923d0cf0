use personal_log_ai::keys::{chars_from_units, classify_key_event, classify_tap_event, tap_event_mask, KeyAction, TapEvent};

const CMD: u64 = 0x10_0000;
const FN: u64 = 0x80_0000;

#[test]
fn typing_keys_are_recorded() {
    assert_eq!(classify_key_event(0, 0), KeyAction::Record { is_backspace: false });
    assert_eq!(classify_key_event(51, 0), KeyAction::Record { is_backspace: true });
    assert_eq!(classify_key_event(48, 0), KeyAction::Record { is_backspace: false });
}

#[test]
fn shortcuts_and_modifiers_are_left_out() {
    assert_eq!(classify_key_event(9, CMD), KeyAction::Paste);
    assert_eq!(classify_key_event(8, CMD), KeyAction::Ignore);
    assert_eq!(classify_key_event(7, CMD), KeyAction::Ignore);
    assert_eq!(classify_key_event(0, FN), KeyAction::Ignore);
    assert_eq!(classify_key_event(122, 0), KeyAction::Ignore);
    assert_eq!(classify_key_event(145, 0), KeyAction::Ignore);
    assert_eq!(classify_key_event(114, 0), KeyAction::Ignore);
    assert_eq!(classify_key_event(55, 0), KeyAction::Ignore);
    assert_eq!(classify_key_event(48, CMD), KeyAction::Ignore);
    assert_eq!(classify_key_event(53, CMD), KeyAction::Ignore);
    assert_eq!(classify_key_event(0, CMD), KeyAction::Record { is_backspace: false });
}

#[test]
fn tap_events_and_mask() {
    assert_eq!(classify_tap_event(10), TapEvent::KeyDown);
    assert_eq!(classify_tap_event(1), TapEvent::MouseDown);
    assert_eq!(classify_tap_event(3), TapEvent::MouseDown);
    assert_eq!(classify_tap_event(11), TapEvent::Other);
    assert_eq!(tap_event_mask(), 0x0c0a);
}

#[test]
fn key_characters_from_utf16_units() {
    assert_eq!(chars_from_units(&[0x61, 0x62]), Some("ab".to_string()));
    assert_eq!(chars_from_units(&[0x4f60]), Some("你".to_string()));
    assert_eq!(chars_from_units(&[0xD83D, 0xDE00]), None);
    assert_eq!(chars_from_units(&[]), None);
}
