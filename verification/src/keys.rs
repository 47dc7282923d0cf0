//! Which keyboard events count as typing: shortcuts, function keys and bare
//! modifier keys are left out, Cmd+V is a paste.
use vstd::prelude::*;
use crate::text::push_char;

verus! {

/// What to do with a key press.
#[derive(Clone, Copy, Debug, PartialEq, Eq, Structural)]
pub enum KeyAction {
    /// Cmd+V: record what is pasted.
    Paste,
    /// Not typing: leave it out.
    Ignore,
    /// Typing: record the key.
    Record { is_backspace: bool },
}

/// Event types of the keyboard and mouse event tap.
#[derive(Clone, Copy, Debug, PartialEq, Eq, Structural)]
pub enum TapEvent {
    KeyDown,
    MouseDown,
    Other,
}

/// The Command modifier is held (flag bit 20).
pub open spec fn cmd_held(flags: u64) -> bool {
    flags & 0x10_0000u64 != 0
}

/// The Fn modifier is held (flag bit 23).
pub open spec fn fn_held(flags: u64) -> bool {
    flags & 0x80_0000u64 != 0
}

/// Command shortcuts that type nothing: Tab, Q, W, [, I, Return, ], K, L, ;,
/// ', \, ",", ".", /, M, N, ` and Escape.
pub open spec fn non_input_cmd_key(key_code: i64) -> bool {
    key_code == 48 || key_code == 12 || key_code == 13 || key_code == 32 || key_code == 34
        || key_code == 36 || key_code == 37 || key_code == 38 || key_code == 39 || key_code == 40
        || key_code == 41 || key_code == 42 || key_code == 43 || key_code == 44 || key_code == 45
        || key_code == 46 || key_code == 47 || key_code == 50 || key_code == 53
}

/// Bare modifier keys: Command, Shift, Caps Lock, Option, Control, Fn.
pub open spec fn modifier_key(key_code: i64) -> bool {
    key_code == 55 || key_code == 56 || key_code == 58 || key_code == 59 || key_code == 57
        || key_code == 63
}

/// How a key press with virtual key code `key_code` and modifier `flags` is treated.
pub open spec fn key_action(key_code: i64, flags: u64) -> KeyAction {
    let cmd = cmd_held(flags);
    if cmd && key_code == 9 {
        KeyAction::Paste
    } else if cmd && (key_code == 7 || key_code == 8) {
        KeyAction::Ignore
    } else if fn_held(flags) {
        KeyAction::Ignore
    } else if 122 <= key_code <= 145 {
        KeyAction::Ignore
    } else if key_code == 114 || key_code == 107 || key_code == 113 {
        KeyAction::Ignore
    } else if modifier_key(key_code) {
        KeyAction::Ignore
    } else if cmd && non_input_cmd_key(key_code) {
        KeyAction::Ignore
    } else {
        KeyAction::Record { is_backspace: key_code == 51 }
    }
}

/// Decides what a key press is: a paste, typing to record (and whether it is
/// a backspace), or something to leave out.
pub fn classify_key_event(key_code: i64, flags: u64) -> (r: KeyAction)
    ensures
        r == key_action(key_code, flags),
{
    let is_cmd = (flags & 0x10_0000u64) != 0;
    let is_fn = (flags & 0x80_0000u64) != 0;
    if is_cmd && key_code == 9 {
        return KeyAction::Paste;
    }
    if is_cmd && (key_code == 7 || key_code == 8) {
        return KeyAction::Ignore;
    }
    if is_fn {
        return KeyAction::Ignore;
    }
    if key_code >= 122 && key_code <= 145 {
        return KeyAction::Ignore;
    }
    if key_code == 114 || key_code == 107 || key_code == 113 {
        return KeyAction::Ignore;
    }
    if key_code == 55 || key_code == 56 || key_code == 58 || key_code == 59 || key_code == 57
        || key_code == 63 {
        return KeyAction::Ignore;
    }
    if is_cmd && (key_code == 48 || key_code == 12 || key_code == 13 || key_code == 32 || key_code
        == 34 || key_code == 36 || key_code == 37 || key_code == 38 || key_code == 39 || key_code == 40
        || key_code == 41 || key_code == 42 || key_code == 43 || key_code == 44 || key_code == 45
        || key_code == 46 || key_code == 47 || key_code == 50 || key_code == 53) {
        return KeyAction::Ignore;
    }
    KeyAction::Record { is_backspace: key_code == 51 }
}

/// The kind of a tapped event from its type number: key down (10), left or
/// right mouse down (1, 3), or another.
pub open spec fn tap_event_of(event_type: u32) -> TapEvent {
    if event_type == 10 {
        TapEvent::KeyDown
    } else if event_type == 1 || event_type == 3 {
        TapEvent::MouseDown
    } else {
        TapEvent::Other
    }
}

pub fn classify_tap_event(event_type: u32) -> (r: TapEvent)
    ensures
        r == tap_event_of(event_type),
{
    if event_type == 10 {
        TapEvent::KeyDown
    } else if event_type == 1 || event_type == 3 {
        TapEvent::MouseDown
    } else {
        TapEvent::Other
    }
}

/// The event mask that asks for key down, key up, left and right mouse down.
pub fn tap_event_mask() -> (r: u64)
    ensures
        r == 0x0c0au64,
{
    let r = (1u64 << 10u64) | (1u64 << 11u64) | (1u64 << 1u64) | (1u64 << 3u64);
    assert(r == 0x0c0au64) by (bit_vector)
        requires
            r == (1u64 << 10u64) | (1u64 << 11u64) | (1u64 << 1u64) | (1u64 << 3u64),
    ;
    r
}

// ---------------------------------------------------------------------------
// Characters of a key
// ---------------------------------------------------------------------------

/// A UTF-16 code unit that is not a surrogate, taken as a character on its own.
pub open spec fn unit_is_char(u: u16) -> bool {
    !(0xD800 <= u <= 0xDFFF)
}

/// The characters of `units` taken one code unit at a time, surrogates dropped.
pub open spec fn unit_chars(units: Seq<u16>) -> Seq<char>
    decreases units.len(),
{
    if units.len() == 0 {
        seq![]
    } else if unit_is_char(units.last()) {
        unit_chars(units.drop_last()).push(units.last() as char)
    } else {
        unit_chars(units.drop_last())
    }
}

/// `char::from_u32`: the character with scalar value `u`, if it is one.
#[verifier::external_body]
fn char_from_u32(u: u32) -> (r: Option<char>)
    ensures
        (u < 0xD800 || (0xDFFF < u && u <= 0x10FFFF)) ==> r == Some(u as char),
        !(u < 0xD800 || (0xDFFF < u && u <= 0x10FFFF)) ==> r is None,
{
    char::from_u32(u)
}

/// The text a key produced, from the UTF-16 code units the event reports:
/// each unit that is a character on its own, surrogates dropped; nothing
/// when no character is left.
pub fn chars_from_units(units: &[u16]) -> (r: Option<String>)
    ensures
        match r {
            Some(s) => s@ == unit_chars(units@) && s@.len() > 0,
            None => unit_chars(units@).len() == 0,
        },
{
    let mut s = String::new();
    let mut n: usize = 0;
    let mut i: usize = 0;
    while i < units.len()
        invariant
            i <= units.len(),
            s@ == unit_chars(units@.take(i as int)),
            n == s@.len(),
            n <= i,
        decreases units.len() - i,
    {
        assert(units@.take(i + 1).drop_last() =~= units@.take(i as int));
        let u = units[i];
        match char_from_u32(u as u32) {
            Some(c) => {
                push_char(&mut s, c);
                n = n + 1;
            },
            None => {},
        }
        i += 1;
    }
    assert(units@.take(units@.len() as int) =~= units@);
    if n == 0 {
        None
    } else {
        Some(s)
    }
}

} // verus!
