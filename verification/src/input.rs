//! The input recorder: what happens to the typing session, the event count and
//! the raw event log when a key, a click, a clipboard change, an application
//! switch or an input-method event arrives.
//!
//! The recorder's state is an [`InputState`] value; every recording function
//! takes it, decides, updates it, and hands back what is to be written to the
//! event log and which finished typing session is to be stored.
use vstd::prelude::*;
use std::time::Instant;
use crate::clock::{elapsed_secs, instant_now};
use crate::ime::{IMETextEvent, IMETextType};
use crate::privacy::{
    blacklist, is_blacklisted_sync, is_sensitive_clipboard_content, listed, sensitive_content,
};
use crate::text::{contains, has_infix, pop_char, push_str, str_chars};
use crate::todo::{extract_todo_from_text, opt_string, todo_of};

verus! {

// ---------------------------------------------------------------------------
// Data
// ---------------------------------------------------------------------------

/// The application that has the focus.
#[derive(Clone, Debug)]
pub struct AppInfo {
    pub bundle_id: String,
    pub name: String,
    pub window_title: Option<String>,
    pub pid: i32,
}

pub struct AppView {
    pub bundle_id: Seq<char>,
    pub name: Seq<char>,
    pub window_title: Option<Seq<char>>,
    pub pid: i32,
}

impl View for AppInfo {
    type V = AppView;

    open spec fn view(&self) -> AppView {
        AppView {
            bundle_id: self.bundle_id@,
            name: self.name@,
            window_title: opt_string(self.window_title),
            pid: self.pid,
        }
    }
}

/// One captured input event, with its privacy level (0 normal, 1 local
/// only, 2 discarded).
#[derive(Clone, Debug)]
pub struct InputEvent {
    pub timestamp: i64,
    pub event_type: String,
    pub app_bundle_id: Option<String>,
    pub app_name: Option<String>,
    pub window_title: Option<String>,
    pub content: Option<String>,
    pub is_sensitive: i32,
    pub key_code: Option<i64>,
    pub is_backspace: bool,
}

/// A typing session: the text typed into one application since it got the
/// focus, with its counters.
#[derive(Clone, Debug)]
pub struct SessionState {
    pub id: String,
    pub app_bundle_id: String,
    pub app_name: Option<String>,
    pub start_time: i64,
    pub last_input_time: Instant,
    pub buffer: String,
    pub pause_count: i32,
    pub backspace_count: i32,
    pub total_keystrokes: i32,
}

pub struct SessionView {
    pub id: Seq<char>,
    pub app_bundle_id: Seq<char>,
    pub app_name: Option<Seq<char>>,
    pub start_time: i64,
    pub buffer: Seq<char>,
    pub pause_count: i32,
    pub backspace_count: i32,
    pub total_keystrokes: i32,
}

impl View for SessionState {
    type V = SessionView;

    open spec fn view(&self) -> SessionView {
        SessionView {
            id: self.id@,
            app_bundle_id: self.app_bundle_id@,
            app_name: opt_string(self.app_name),
            start_time: self.start_time,
            buffer: self.buffer@,
            pause_count: self.pause_count,
            backspace_count: self.backspace_count,
            total_keystrokes: self.total_keystrokes,
        }
    }
}

pub open spec fn opt_session(o: Option<SessionState>) -> Option<SessionView> {
    match o {
        Some(s) => Some(s@),
        None => None,
    }
}

/// What goes into the metadata column of a logged event.
#[derive(Clone, Debug)]
pub enum EventMeta {
    /// A key press.
    Key { key_code: i64, is_backspace: bool },
    /// A mouse click; its position is added by the platform layer.
    MouseClick,
    /// A clipboard change, with the UTF-8 length of the content.
    Clipboard { source_app: String, length: usize },
    /// An application got the focus.
    AppFocus { pid: i32 },
    /// Text from the input method, with its length in characters.
    ImeText { committed: bool, length: usize },
    /// A paste (Cmd+V), with the UTF-8 length of what was pasted.
    Paste { length: usize },
}

pub enum MetaView {
    Key { key_code: i64, is_backspace: bool },
    MouseClick,
    Clipboard { source_app: Seq<char>, length: usize },
    AppFocus { pid: i32 },
    ImeText { committed: bool, length: usize },
    Paste { length: usize },
}

impl View for EventMeta {
    type V = MetaView;

    open spec fn view(&self) -> MetaView {
        match self {
            EventMeta::Key { key_code, is_backspace } => MetaView::Key {
                key_code: *key_code,
                is_backspace: *is_backspace,
            },
            EventMeta::MouseClick => MetaView::MouseClick,
            EventMeta::Clipboard { source_app, length } => MetaView::Clipboard {
                source_app: source_app@,
                length: *length,
            },
            EventMeta::AppFocus { pid } => MetaView::AppFocus { pid: *pid },
            EventMeta::ImeText { committed, length } => MetaView::ImeText {
                committed: *committed,
                length: *length,
            },
            EventMeta::Paste { length } => MetaView::Paste { length: *length },
        }
    }
}

/// A row for the raw event log.
#[derive(Clone, Debug)]
pub struct RawEvent {
    pub timestamp: i64,
    pub event_type: String,
    pub app_bundle_id: Option<String>,
    pub app_name: Option<String>,
    pub window_title: Option<String>,
    pub content: Option<String>,
    pub is_sensitive: i32,
    pub session_id: Option<String>,
    pub meta: EventMeta,
}

pub struct RawEventView {
    pub timestamp: i64,
    pub event_type: Seq<char>,
    pub app_bundle_id: Option<Seq<char>>,
    pub app_name: Option<Seq<char>>,
    pub window_title: Option<Seq<char>>,
    pub content: Option<Seq<char>>,
    pub is_sensitive: i32,
    pub session_id: Option<Seq<char>>,
    pub meta: MetaView,
}

impl View for RawEvent {
    type V = RawEventView;

    open spec fn view(&self) -> RawEventView {
        RawEventView {
            timestamp: self.timestamp,
            event_type: self.event_type@,
            app_bundle_id: opt_string(self.app_bundle_id),
            app_name: opt_string(self.app_name),
            window_title: opt_string(self.window_title),
            content: opt_string(self.content),
            is_sensitive: self.is_sensitive,
            session_id: opt_string(self.session_id),
            meta: self.meta@,
        }
    }
}

pub open spec fn opt_event(o: Option<RawEvent>) -> Option<RawEventView> {
    match o {
        Some(e) => Some(e@),
        None => None,
    }
}

/// The status shown live in the interface.
#[derive(Clone, Debug)]
pub struct RealtimeStatus {
    /// When the status was taken (milliseconds); `None` before the first update.
    pub timestamp: Option<i64>,
    pub app_name: Option<String>,
    pub app_bundle_id: Option<String>,
    pub window_title: Option<String>,
    pub recording: bool,
    pub paused: bool,
    pub today_events: i64,
}

/// Everything the recorder keeps between events.
pub struct InputState {
    pub paused: bool,
    pub event_count: i64,
    pub session: Option<SessionState>,
    pub last_cgevent_key: Option<Instant>,
    pub last_ime_direct: Option<(String, Instant)>,
    pub realtime: Option<RealtimeStatus>,
}

pub struct InputView {
    pub paused: bool,
    pub event_count: i64,
    pub session: Option<SessionView>,
    pub ime_direct_text: Option<Seq<char>>,
}

impl View for InputState {
    type V = InputView;

    open spec fn view(&self) -> InputView {
        InputView {
            paused: self.paused,
            event_count: self.event_count,
            session: opt_session(self.session),
            ime_direct_text: match self.last_ime_direct {
                Some(p) => Some(p.0@),
                None => None,
            },
        }
    }
}

/// There is room to count one more event and to add `extra` keystrokes, one
/// backspace and one pause to the open session without overflowing the counters.
pub open spec fn room(v: InputView, extra: int) -> bool {
    &&& v.event_count < i64::MAX
    &&& extra <= i32::MAX
    &&& v.session matches Some(s) ==> s.total_keystrokes + extra <= i32::MAX && s.backspace_count
        < i32::MAX && s.pause_count < i32::MAX
}

/// A recorder that is not paused, has counted nothing and has no session.
pub fn new_input_state() -> (r: InputState)
    ensures
        r@ == (InputView { paused: false, event_count: 0, session: None, ime_direct_text: None }),
        r.realtime is None,
        r.last_cgevent_key is None,
{
    InputState {
        paused: false,
        event_count: 0,
        session: None,
        last_cgevent_key: None,
        last_ime_direct: None,
        realtime: None,
    }
}

/// Whether [`room`] holds, so that a recording call may be made.
pub fn has_room(state: &InputState, extra: usize) -> (r: bool)
    ensures
        r == room(state@, extra as int),
{
    if state.event_count == i64::MAX || extra > 2147483647 {
        return false;
    }
    match &state.session {
        Some(s) => s.backspace_count < i32::MAX && s.pause_count < i32::MAX && (s.total_keystrokes
            as i64) + (extra as i64) <= 2147483647,
        None => true,
    }
}

// ---------------------------------------------------------------------------
// Pausing and status
// ---------------------------------------------------------------------------

/// Pauses or resumes recording.
pub fn set_paused(state: &mut InputState, paused: bool)
    ensures
        final(state)@ == (InputView { paused, ..old(state)@ }),
        final(state).realtime == old(state).realtime,
{
    state.paused = paused;
}

/// The live status: the last one taken (or an idle one before the first),
/// with `paused` and `recording` following the pause switch.
pub fn get_realtime_status(state: &InputState) -> (r: RealtimeStatus)
    ensures
        r.paused == state.paused,
        r.recording == !state.paused,
        match state.realtime {
            Some(s) => r.timestamp == s.timestamp && opt_string(r.app_name) == opt_string(s.app_name)
                && opt_string(r.app_bundle_id) == opt_string(s.app_bundle_id) && opt_string(
                r.window_title,
            ) == opt_string(s.window_title) && r.today_events == s.today_events,
            None => r.timestamp is None && r.app_name is None && r.app_bundle_id is None
                && r.window_title is None && r.today_events == 0,
        },
{
    let base = match &state.realtime {
        Some(s) => RealtimeStatus {
            timestamp: s.timestamp,
            app_name: clone_opt(&s.app_name),
            app_bundle_id: clone_opt(&s.app_bundle_id),
            window_title: clone_opt(&s.window_title),
            recording: s.recording,
            paused: s.paused,
            today_events: s.today_events,
        },
        None => RealtimeStatus {
            timestamp: None,
            app_name: None,
            app_bundle_id: None,
            window_title: None,
            recording: false,
            paused: false,
            today_events: 0,
        },
    };
    RealtimeStatus { paused: state.paused, recording: !state.paused, ..base }
}

/// Takes the live status from the focused application and the counters.
pub fn update_realtime_status(state: &mut InputState, app: &AppInfo, now: i64)
    ensures
        final(state)@ == old(state)@,
        final(state).realtime matches Some(s) && s.timestamp == Some(now) && opt_string(s.app_name)
            == Some(app.name@) && opt_string(s.app_bundle_id) == Some(app.bundle_id@) && opt_string(
            s.window_title,
        ) == opt_string(app.window_title) && s.recording == !old(state).paused && s.paused == old(
            state,
        ).paused && s.today_events == old(state).event_count,
{
    let status = RealtimeStatus {
        timestamp: Some(now),
        app_name: Some(app.name.clone()),
        app_bundle_id: Some(app.bundle_id.clone()),
        window_title: clone_opt(&app.window_title),
        recording: !state.paused,
        paused: state.paused,
        today_events: state.event_count,
    };
    state.realtime = Some(status);
}

fn clone_opt(o: &Option<String>) -> (r: Option<String>)
    ensures
        opt_string(r) == opt_string(*o),
{
    match o {
        Some(s) => Some(s.clone()),
        None => None,
    }
}

// ---------------------------------------------------------------------------
// Sessions
// ---------------------------------------------------------------------------

/// A fresh random session identifier (`uuid::Uuid::new_v4().to_string()`).
/// Nothing is stated of it: it is random.
#[verifier::external_body]
fn new_session_id() -> (r: String) {
    uuid::Uuid::new_v4().to_string()
}

/// `s` is a session just opened for `app` at `now`, with nothing typed yet.
pub open spec fn fresh_session(s: SessionView, app: AppView, now: i64) -> bool {
    &&& s.app_bundle_id == app.bundle_id
    &&& s.app_name == Some(app.name)
    &&& s.start_time == now
    &&& s.buffer == Seq::<char>::empty()
    &&& s.pause_count == 0
    &&& s.backspace_count == 0
    &&& s.total_keystrokes == 0
}

/// Opens a session for `app` at `now`, with a fresh random identifier.
pub fn create_new_session(app: &AppInfo, now: i64) -> (r: SessionState)
    ensures
        fresh_session(r@, app@, now),
{
    SessionState {
        id: new_session_id(),
        app_bundle_id: app.bundle_id.clone(),
        app_name: Some(app.name.clone()),
        start_time: now,
        last_input_time: instant_now(),
        buffer: String::new(),
        pause_count: 0,
        backspace_count: 0,
        total_keystrokes: 0,
    }
}

/// Ends the open session, if any, and hands it back to be stored.
pub fn save_current_session(state: &mut InputState) -> (r: Option<SessionState>)
    ensures
        opt_session(r) == old(state)@.session,
        final(state)@ == (InputView { session: None, ..old(state)@ }),
{
    state.session.take()
}

/// `before` and `after` are the recorder before and after the idle check
/// when the open session has had no input for `idle_secs` seconds, and `r`
/// is what the check hands back: a session idle for more than `timeout_secs`
/// ends and is handed back; otherwise nothing changes.
pub open spec fn idle_check(
    before: InputView,
    timeout_secs: u64,
    idle_secs: u64,
    after: InputView,
    r: Option<SessionView>,
) -> bool {
    if before.session is Some && idle_secs > timeout_secs {
        r == before.session && after == (InputView { session: None, ..before })
    } else {
        r is None && after == before
    }
}

/// The idle check when the open session has had no input for `idle_secs` seconds.
pub fn take_session_if_idle(state: &mut InputState, timeout_secs: u64, idle_secs: u64) -> (r: Option<
    SessionState,
>)
    ensures
        idle_check(old(state)@, timeout_secs, idle_secs, final(state)@, opt_session(r)),
{
    if state.session.is_some() && idle_secs > timeout_secs {
        state.session.take()
    } else {
        None
    }
}

/// Ends the open session when no input came for more than `timeout_secs`
/// seconds, and hands it back to be stored. How long it has been idle is
/// read from the clock; the outcome is that of the idle check for what was read.
pub fn take_idle_session(state: &mut InputState, timeout_secs: u64) -> (r: Option<SessionState>)
    ensures
        exists|idle: u64| #[trigger] idle_check(old(state)@, timeout_secs, idle, final(state)@, opt_session(r)),
{
    let idle = match &state.session {
        Some(s) => elapsed_secs(&s.last_input_time),
        None => 0,
    };
    take_session_if_idle(state, timeout_secs, idle)
}

/// What is stored when a typing session ends.
#[derive(Clone, Debug)]
pub struct SessionRecord {
    pub id: String,
    pub app_bundle_id: String,
    pub app_name: Option<String>,
    pub start_time: i64,
    pub end_time: i64,
    /// The typed text, or `None` when nothing is left of it.
    pub content: Option<String>,
    /// Number of characters typed.
    pub char_count: i64,
    /// The first 200 characters of the text.
    pub text_preview: String,
    pub pause_count: i32,
    pub backspace_count: i32,
    pub total_keystrokes: i32,
    pub duration_ms: i64,
    pub duration_sec: i64,
    /// A to-do item found in the text, if any.
    pub todo: Option<String>,
}

/// Summarises a finished session that lasted `duration_ms`; a session with no
/// text and no keystrokes is not stored.
pub fn session_record(s: &SessionState, duration_ms: i64) -> (r: Option<SessionRecord>)
    requires
        0 <= duration_ms,
        s.start_time + duration_ms <= i64::MAX,
        s.buffer@.len() <= i64::MAX,
    ensures
        (s.buffer@.len() == 0 && s.total_keystrokes == 0) <==> r is None,
        r matches Some(rec) ==> {
            &&& rec.id@ == s.id@
            &&& rec.app_bundle_id@ == s.app_bundle_id@
            &&& opt_string(rec.app_name) == opt_string(s.app_name)
            &&& rec.start_time == s.start_time
            &&& rec.end_time == s.start_time + duration_ms
            &&& opt_string(rec.content) == if s.buffer@.len() == 0 {
                None
            } else {
                Some(s.buffer@)
            }
            &&& rec.char_count == s.buffer@.len()
            &&& rec.text_preview@ == s.buffer@.take(
                if s.buffer@.len() < 200 {
                    s.buffer@.len() as int
                } else {
                    200
                },
            )
            &&& rec.pause_count == s.pause_count
            &&& rec.backspace_count == s.backspace_count
            &&& rec.total_keystrokes == s.total_keystrokes
            &&& rec.duration_ms == duration_ms
            &&& rec.duration_sec == duration_ms / 1000
            &&& opt_string(rec.todo) == todo_of(s.buffer@)
        },
{
    let chars = str_chars(s.buffer.as_str());
    if chars.len() == 0 && s.total_keystrokes == 0 {
        return None;
    }
    let n = if chars.len() < 200 {
        chars.len()
    } else {
        200
    };
    let preview = crate::text::string_of_range(&chars, 0, n);
    assert(chars@.subrange(0, n as int) =~= chars@.take(n as int));
    let content = if chars.len() == 0 {
        None
    } else {
        Some(s.buffer.clone())
    };
    let char_count = chars.len() as i64;
    Some(
        SessionRecord {
            id: s.id.clone(),
            app_bundle_id: s.app_bundle_id.clone(),
            app_name: clone_opt(&s.app_name),
            start_time: s.start_time,
            end_time: s.start_time + duration_ms,
            content,
            char_count,
            text_preview: preview,
            pause_count: s.pause_count,
            backspace_count: s.backspace_count,
            total_keystrokes: s.total_keystrokes,
            duration_ms,
            duration_sec: duration_ms / 1000,
            todo: extract_todo_from_text(s.buffer.as_str()),
        },
    )
}

// ---------------------------------------------------------------------------
// Recording
// ---------------------------------------------------------------------------

/// What a recording call hands back: the row for the event log, if any, and
/// the session that ended and is to be stored, if any.
pub struct Recorded {
    pub event: Option<RawEvent>,
    pub finished: Option<SessionState>,
}

fn nothing() -> (r: Recorded)
    ensures
        r.event is None,
        r.finished is None,
{
    Recorded { event: None, finished: None }
}

/// `s` after one key: a backspace removes the last character and is counted,
/// another key appends its text; every key counts as a keystroke, and a key
/// that ends a pause counts a pause.
pub open spec fn key_on_session(
    s: SessionView,
    key: Option<Seq<char>>,
    backspace: bool,
    pause: bool,
) -> SessionView {
    SessionView {
        backspace_count: if backspace {
            (s.backspace_count + 1) as i32
        } else {
            s.backspace_count
        },
        buffer: if backspace {
            if s.buffer.len() > 0 {
                s.buffer.drop_last()
            } else {
                s.buffer
            }
        } else {
            match key {
                Some(k) => s.buffer + k,
                None => s.buffer,
            }
        },
        total_keystrokes: (s.total_keystrokes + 1) as i32,
        pause_count: if pause {
            (s.pause_count + 1) as i32
        } else {
            s.pause_count
        },
        ..s
    }
}

/// A key comes after a pause when the session's last input was more than
/// `threshold_secs` seconds (`gap_ms` milliseconds) before it.
pub open spec fn is_pause(gap_ms: i64, threshold_secs: u64) -> bool {
    gap_ms > threshold_secs * 1000
}

/// `n` is the session a key opens in `app` at `now`: it holds the key's text
/// and counts one keystroke when the key has text, none otherwise.
pub open spec fn key_opens_session(n: SessionView, app: AppView, now: i64, key: Option<Seq<char>>) -> bool {
    &&& n.app_bundle_id == app.bundle_id
    &&& n.app_name == Some(app.name)
    &&& n.start_time == now
    &&& n.buffer == match key {
        Some(k) => k,
        None => Seq::<char>::empty(),
    }
    &&& n.pause_count == 0
    &&& n.backspace_count == 0
    &&& n.total_keystrokes == if key is Some {
        1i32
    } else {
        0i32
    }
}

/// The log row of a key press (a backspace is logged as `keyup`).
pub open spec fn key_event_view(
    key_code: i64,
    key: Option<Seq<char>>,
    backspace: bool,
    app: AppView,
    now: i64,
) -> RawEventView {
    RawEventView {
        timestamp: now,
        event_type: if backspace {
            "keyup"@
        } else {
            "keydown"@
        },
        app_bundle_id: Some(app.bundle_id),
        app_name: Some(app.name),
        window_title: app.window_title,
        content: key,
        is_sensitive: 0,
        session_id: None,
        meta: MetaView::Key { key_code, is_backspace: backspace },
    }
}

pub open spec fn opt_str(o: Option<&str>) -> Option<Seq<char>> {
    match o {
        Some(t) => Some(t@),
        None => None,
    }
}

/// A key with text `key` is skipped when the last direct input-method text,
/// seen `elapsed_ms` milliseconds ago, is less than 500 ms old and holds it.
pub open spec fn dedup_rule(v: InputView, key: Seq<char>, elapsed_ms: i64) -> bool {
    v.ime_direct_text matches Some(t) && elapsed_ms < 500 && contains(t, key)
}

/// Whether a key with text `key_char` is skipped when the last direct
/// input-method text came `elapsed_ms` milliseconds ago.
pub fn dedup_after(state: &InputState, key_char: &str, elapsed_ms: i64) -> (r: bool)
    ensures
        r == dedup_rule(state@, key_char@, elapsed_ms),
{
    match &state.last_ime_direct {
        Some(p) => {
            if elapsed_ms < 500 {
                let t = str_chars(p.0.as_str());
                has_infix(&t, &str_chars(key_char))
            } else {
                false
            }
        },
        None => false,
    }
}

/// Whether a key with text `key_char` was already seen as direct input-method
/// text less than 500 ms ago, so that it is not logged twice. How long ago
/// that text came is read from the clock; the answer is the rule's for what was read.
pub fn should_dedup_cgevent_key(state: &InputState, key_char: &str) -> (r: bool)
    ensures
        exists|ms: i64| r == #[trigger] dedup_rule(state@, key_char@, ms),
{
    let elapsed = match &state.last_ime_direct {
        Some(p) => crate::clock::elapsed_millis(&p.1),
        None => 0,
    };
    dedup_after(state, key_char, elapsed)
}

/// The outcome of a key press in `app` at `now` (milliseconds), when the last
/// direct input-method text came `elapsed_ms` milliseconds ago and the open
/// session's last input `gap_ms` milliseconds ago. Nothing is recorded while
/// paused, in a blacklisted application or in a password field, nor when the
/// key's text was just seen as direct input-method text. Otherwise the key is
/// logged, the open session of `app` takes it (counting a pause after a gap
/// over `threshold_secs`), a session of another application ends and is
/// handed back and a new one opens, and the event count goes up by one.
pub open spec fn key_outcome(
    before: InputView,
    key_code: i64,
    key: Option<Seq<char>>,
    backspace: bool,
    app: AppView,
    now: i64,
    secure_field: bool,
    elapsed_ms: i64,
    gap_ms: i64,
    threshold_secs: u64,
    after: InputView,
    event: Option<RawEventView>,
    finished: Option<SessionView>,
) -> bool {
    if before.paused || listed(app.bundle_id, blacklist()) || secure_field || (key matches Some(k)
        && dedup_rule(before, k, elapsed_ms)) {
        after == before && event is None && finished is None
    } else {
        &&& event == Some(key_event_view(key_code, key, backspace, app, now))
        &&& after.event_count == before.event_count + 1
        &&& after.paused == before.paused
        &&& after.ime_direct_text == before.ime_direct_text
        &&& match before.session {
            Some(s) => if s.app_bundle_id == app.bundle_id {
                &&& finished is None
                &&& after.session == Some(
                    key_on_session(s, key, backspace, is_pause(gap_ms, threshold_secs)),
                )
            } else {
                &&& finished == Some(s)
                &&& (after.session matches Some(n) && key_opens_session(n, app, now, key))
            },
            None => {
                &&& finished is None
                &&& (after.session matches Some(n) && key_opens_session(n, app, now, key))
            },
        }
    }
}

fn pause_after(gap_ms: i64, threshold_secs: u64) -> (r: bool)
    ensures
        r == is_pause(gap_ms, threshold_secs),
{
    (gap_ms as i128) > (threshold_secs as i128) * 1000
}

/// Records a key press when the last direct input-method text came
/// `elapsed_ms` milliseconds ago and the open session's last input `gap_ms`
/// milliseconds ago; see [`key_outcome`].
pub fn record_key_event_after(
    state: &mut InputState,
    key_code: i64,
    key_char: Option<&str>,
    is_backspace: bool,
    app: &AppInfo,
    now: i64,
    secure_field: bool,
    elapsed_ms: i64,
    gap_ms: i64,
    pause_threshold_secs: u64,
) -> (r: Recorded)
    requires
        room(old(state)@, 1),
    ensures
        key_outcome(
            old(state)@,
            key_code,
            opt_str(key_char),
            is_backspace,
            app@,
            now,
            secure_field,
            elapsed_ms,
            gap_ms,
            pause_threshold_secs,
            final(state)@,
            opt_event(r.event),
            opt_session(r.finished),
        ),
{
    if state.paused {
        return nothing();
    }
    if is_blacklisted_sync(app.bundle_id.as_str()) {
        return nothing();
    }
    if secure_field {
        return nothing();
    }
    state.last_cgevent_key = Some(instant_now());
    if let Some(ch) = key_char {
        if dedup_after(state, ch, elapsed_ms) {
            return nothing();
        }
    }
    let event = RawEvent {
        timestamp: now,
        event_type: if is_backspace {
            "keyup".to_owned()
        } else {
            "keydown".to_owned()
        },
        app_bundle_id: Some(app.bundle_id.clone()),
        app_name: Some(app.name.clone()),
        window_title: clone_opt(&app.window_title),
        content: match key_char {
            Some(ch) => Some(ch.to_owned()),
            None => None,
        },
        is_sensitive: 0,
        session_id: None,
        meta: EventMeta::Key { key_code, is_backspace },
    };
    let mut finished: Option<SessionState> = None;
    match state.session.take() {
        Some(mut s) => {
            if s.app_bundle_id == app.bundle_id {
                if pause_after(gap_ms, pause_threshold_secs) {
                    s.pause_count = s.pause_count + 1;
                }
                if is_backspace {
                    s.backspace_count = s.backspace_count + 1;
                    pop_char(&mut s.buffer);
                } else if let Some(ch) = key_char {
                    push_str(&mut s.buffer, ch);
                }
                s.total_keystrokes = s.total_keystrokes + 1;
                s.last_input_time = instant_now();
                state.session = Some(s);
            } else {
                finished = Some(s);
                let mut n = create_new_session(app, now);
                if let Some(ch) = key_char {
                    push_str(&mut n.buffer, ch);
                    n.total_keystrokes = n.total_keystrokes + 1;
                }
                state.session = Some(n);
            }
        },
        None => {
            let mut n = create_new_session(app, now);
            if let Some(ch) = key_char {
                push_str(&mut n.buffer, ch);
                n.total_keystrokes = n.total_keystrokes + 1;
            }
            state.session = Some(n);
        },
    }
    state.event_count = state.event_count + 1;
    Recorded { event: Some(event), finished }
}

/// Records a key press in `app` at `now` (milliseconds). How long ago the
/// last direct input-method text came and how long the open session has been
/// without input are read from the clock; the outcome is [`key_outcome`] for
/// what was read.
pub fn record_key_event(
    state: &mut InputState,
    key_code: i64,
    key_char: Option<&str>,
    is_backspace: bool,
    app: &AppInfo,
    now: i64,
    secure_field: bool,
    pause_threshold_secs: u64,
) -> (r: Recorded)
    requires
        room(old(state)@, 1),
    ensures
        exists|elapsed_ms: i64, gap_ms: i64|
            #[trigger] key_outcome(
                old(state)@,
                key_code,
                opt_str(key_char),
                is_backspace,
                app@,
                now,
                secure_field,
                elapsed_ms,
                gap_ms,
                pause_threshold_secs,
                final(state)@,
                opt_event(r.event),
                opt_session(r.finished),
            ),
{
    let elapsed_ms = match &state.last_ime_direct {
        Some(p) => crate::clock::elapsed_millis(&p.1),
        None => 0,
    };
    let gap_ms = match &state.session {
        Some(s) => crate::clock::elapsed_millis(&s.last_input_time),
        None => 0,
    };
    record_key_event_after(
        state,
        key_code,
        key_char,
        is_backspace,
        app,
        now,
        secure_field,
        elapsed_ms,
        gap_ms,
        pause_threshold_secs,
    )
}

/// The log row of an event in `app` at `now` with the given type, content and metadata.
pub open spec fn app_event_view(
    kind: Seq<char>,
    app: AppView,
    now: i64,
    window_title: Option<Seq<char>>,
    content: Option<Seq<char>>,
    meta: MetaView,
) -> RawEventView {
    RawEventView {
        timestamp: now,
        event_type: kind,
        app_bundle_id: Some(app.bundle_id),
        app_name: Some(app.name),
        window_title,
        content,
        is_sensitive: 0,
        session_id: None,
        meta,
    }
}

/// Records a mouse click in `app` at `now`, unless recording is paused,
/// mouse recording is switched off or the application is blacklisted. The
/// click's position is added to the row by the caller.
pub fn record_mouse_click(state: &mut InputState, mouse_enabled: bool, app: &AppInfo, now: i64) -> (r:
    Option<RawEvent>)
    requires
        old(state)@.event_count < i64::MAX,
    ensures
        old(state).paused || !mouse_enabled || listed(app.bundle_id@, blacklist()) ==> r is None
            && final(state)@ == old(state)@,
        !(old(state).paused || !mouse_enabled || listed(app.bundle_id@, blacklist())) ==> opt_event(r)
            == Some(
            app_event_view("mouse_click"@, app@, now, app@.window_title, None, MetaView::MouseClick),
        ) && final(state)@ == (InputView {
            event_count: (old(state)@.event_count + 1) as i64,
            ..old(state)@
        }),
{
    if state.paused || !mouse_enabled {
        return None;
    }
    if is_blacklisted_sync(app.bundle_id.as_str()) {
        return None;
    }
    state.event_count = state.event_count + 1;
    Some(
        RawEvent {
            timestamp: now,
            event_type: "mouse_click".to_owned(),
            app_bundle_id: Some(app.bundle_id.clone()),
            app_name: Some(app.name.clone()),
            window_title: clone_opt(&app.window_title),
            content: None,
            is_sensitive: 0,
            session_id: None,
            meta: EventMeta::MouseClick,
        },
    )
}

/// Records new clipboard `content` copied while `app` had the focus, unless
/// recording is paused, the application is blacklisted or the content looks
/// like a secret.
pub fn record_clipboard_change(
    state: &mut InputState,
    content: &str,
    source_app: &str,
    app: &AppInfo,
    now: i64,
) -> (r: Option<RawEvent>)
    requires
        old(state)@.event_count < i64::MAX,
    ensures
        old(state).paused || listed(app.bundle_id@, blacklist()) || sensitive_content(content@) ==> r
            is None && final(state)@ == old(state)@,
        !(old(state).paused || listed(app.bundle_id@, blacklist()) || sensitive_content(content@))
            ==> opt_event(r) == Some(
            app_event_view(
                "clipboard"@,
                app@,
                now,
                None,
                Some(content@),
                MetaView::Clipboard { source_app: source_app@, length: content.len() },
            ),
        ) && final(state)@ == (InputView { event_count: (old(state)@.event_count + 1) as i64, ..old(state)@ }),
{
    if state.paused {
        return None;
    }
    if is_blacklisted_sync(app.bundle_id.as_str()) {
        return None;
    }
    if is_sensitive_clipboard_content(content) {
        return None;
    }
    state.event_count = state.event_count + 1;
    Some(
        RawEvent {
            timestamp: now,
            event_type: "clipboard".to_owned(),
            app_bundle_id: Some(app.bundle_id.clone()),
            app_name: Some(app.name.clone()),
            window_title: None,
            content: Some(content.to_owned()),
            is_sensitive: 0,
            session_id: None,
            meta: EventMeta::Clipboard { source_app: source_app.to_owned(), length: content.len() },
        },
    )
}

/// Records a paste (Cmd+V) of `text` into `app`, unless recording is paused
/// or the text is empty or looks like a secret.
pub fn record_paste_action(state: &mut InputState, text: &str, app: &AppInfo, now: i64) -> (r: Option<
    RawEvent,
>)
    requires
        old(state)@.event_count < i64::MAX,
    ensures
        old(state).paused || text@.len() == 0 || sensitive_content(text@) ==> r is None
            && final(state)@ == old(state)@,
        !(old(state).paused || text@.len() == 0 || sensitive_content(text@)) ==> opt_event(r) == Some(
            app_event_view(
                "paste"@,
                app@,
                now,
                app@.window_title,
                Some(text@),
                MetaView::Paste { length: text.len() },
            ),
        ) && final(state)@ == (InputView { event_count: (old(state)@.event_count + 1) as i64, ..old(state)@ }),
{
    if state.paused || text.is_empty() || is_sensitive_clipboard_content(text) {
        return None;
    }
    state.event_count = state.event_count + 1;
    Some(
        RawEvent {
            timestamp: now,
            event_type: "paste".to_owned(),
            app_bundle_id: Some(app.bundle_id.clone()),
            app_name: Some(app.name.clone()),
            window_title: clone_opt(&app.window_title),
            content: Some(text.to_owned()),
            is_sensitive: 0,
            session_id: None,
            meta: EventMeta::Paste { length: text.len() },
        },
    )
}

/// Records that the application `bundle_id` got the focus at `now`, unless
/// recording is paused. The open session ends and is handed back when it
/// belongs to another application (a session of the same application is
/// replaced without being stored); a new session opens for the application.
pub fn record_app_switch(
    state: &mut InputState,
    bundle_id: &str,
    name: &str,
    pid: i32,
    window_title: Option<String>,
    now: i64,
) -> (r: Recorded)
    ensures
        old(state).paused ==> final(state)@ == old(state)@ && r.event is None && r.finished is None,
        !old(state).paused ==> {
            &&& opt_event(r.event) == Some(
                RawEventView {
                    timestamp: now,
                    event_type: "app_focus"@,
                    app_bundle_id: Some(bundle_id@),
                    app_name: Some(name@),
                    window_title: None,
                    content: None,
                    is_sensitive: 0,
                    session_id: None,
                    meta: MetaView::AppFocus { pid },
                },
            )
            &&& opt_session(r.finished) == match old(state)@.session {
                Some(s) => if s.app_bundle_id != bundle_id@ {
                    Some(s)
                } else {
                    None
                },
                None => None,
            }
            &&& final(state)@.paused == old(state)@.paused
            &&& final(state)@.event_count == old(state)@.event_count
            &&& final(state)@.ime_direct_text == old(state)@.ime_direct_text
            &&& (final(state)@.session matches Some(n) && fresh_session(
                n,
                AppView {
                    bundle_id: bundle_id@,
                    name: name@,
                    window_title: opt_string(window_title),
                    pid,
                },
                now,
            ))
        },
{
    if state.paused {
        return nothing();
    }
    let app = AppInfo {
        bundle_id: bundle_id.to_owned(),
        name: name.to_owned(),
        window_title,
        pid,
    };
    let finished = match state.session.take() {
        Some(s) => {
            if s.app_bundle_id != app.bundle_id {
                Some(s)
            } else {
                None
            }
        },
        None => None,
    };
    state.session = Some(create_new_session(&app, now));
    let event = RawEvent {
        timestamp: now,
        event_type: "app_focus".to_owned(),
        app_bundle_id: Some(bundle_id.to_owned()),
        app_name: Some(name.to_owned()),
        window_title: None,
        content: None,
        is_sensitive: 0,
        session_id: None,
        meta: EventMeta::AppFocus { pid },
    };
    Recorded { event: Some(event), finished }
}

/// Whether polling the focused application shows a switch: the application
/// changed and one had been seen before.
pub fn app_switch_detected(last_bundle_id: &str, current_bundle_id: &str) -> (r: bool)
    ensures
        r == (current_bundle_id@ != last_bundle_id@ && last_bundle_id@.len() > 0),
{
    let a = str_chars(last_bundle_id);
    let b = str_chars(current_bundle_id);
    !crate::text::chars_eq(&b, &a) && a.len() > 0
}

// ---------------------------------------------------------------------------
// Input-method text
// ---------------------------------------------------------------------------

/// The application an input-method event names, with `window_title` as its
/// title; `None` when the event names none and the focused application is
/// to be asked.
pub fn app_from_ime_event(event: &IMETextEvent, window_title: Option<String>) -> (r: Option<AppInfo>)
    ensures
        event.app_bundle_id is None <==> r is None,
        r matches Some(a) ==> a@ == (AppView {
            bundle_id: event.app_bundle_id->0@,
            name: match event.app_name {
                Some(n) => n@,
                None => Seq::<char>::empty(),
            },
            window_title: opt_string(window_title),
            pid: 0,
        }),
{
    match &event.app_bundle_id {
        Some(b) => Some(
            AppInfo {
                bundle_id: b.clone(),
                name: match &event.app_name {
                    Some(n) => n.clone(),
                    None => String::new(),
                },
                window_title,
                pid: 0,
            },
        ),
        None => None,
    }
}

/// `s` after input-method text `t`: the text is appended, each of its
/// characters counts as a keystroke, and a pause is counted when `pause`.
pub open spec fn text_on_session(s: SessionView, t: Seq<char>, pause: bool) -> SessionView {
    SessionView {
        buffer: s.buffer + t,
        total_keystrokes: (s.total_keystrokes + t.len()) as i32,
        pause_count: if pause {
            (s.pause_count + 1) as i32
        } else {
            s.pause_count
        },
        ..s
    }
}

/// `n` is the session input-method text `t` opens in `app` at `at`.
pub open spec fn text_opens_session(n: SessionView, app: AppView, at: i64, t: Seq<char>) -> bool {
    &&& n.app_bundle_id == app.bundle_id
    &&& n.app_name == Some(app.name)
    &&& n.start_time == at
    &&& n.buffer == t
    &&& n.pause_count == 0
    &&& n.backspace_count == 0
    &&& n.total_keystrokes == t.len()
}

fn char_count(s: &str) -> (r: usize)
    ensures
        r == s@.len(),
{
    str_chars(s).len()
}

/// Logs committed or direct input-method text and adds it to the session of `app`.
fn record_ime_text(
    state: &mut InputState,
    event: &IMETextEvent,
    app: &AppInfo,
    committed: bool,
    gap_ms: i64,
    pause_threshold_secs: u64,
) -> (r: Recorded)
    requires
        room(old(state)@, event.text@.len() as int),
    ensures
        opt_event(r.event) == Some(
            app_event_view(
                if committed {
                    "ime_committed"@
                } else {
                    "ime_direct"@
                },
                app@,
                event.timestamp,
                app@.window_title,
                Some(event.text@),
                MetaView::ImeText { committed, length: event.text@.len() as usize },
            ),
        ),
        final(state)@.event_count == old(state)@.event_count + 1,
        final(state)@.paused == old(state)@.paused,
        final(state)@.ime_direct_text == old(state)@.ime_direct_text,
        match old(state)@.session {
            Some(s) => if s.app_bundle_id == app.bundle_id@ {
                &&& r.finished is None
                &&& final(state)@.session == Some(
                    text_on_session(s, event.text@, is_pause(gap_ms, pause_threshold_secs)),
                )
            } else {
                &&& opt_session(r.finished) == Some(s)
                &&& (final(state)@.session matches Some(n) && text_opens_session(
                    n,
                    app@,
                    event.timestamp,
                    event.text@,
                ))
            },
            None => {
                &&& r.finished is None
                &&& (final(state)@.session matches Some(n) && text_opens_session(
                    n,
                    app@,
                    event.timestamp,
                    event.text@,
                ))
            },
        },
{
    let now = event.timestamp;
    let count = char_count(event.text.as_str());
    let event_row = RawEvent {
        timestamp: now,
        event_type: if committed {
            "ime_committed".to_owned()
        } else {
            "ime_direct".to_owned()
        },
        app_bundle_id: Some(app.bundle_id.clone()),
        app_name: Some(app.name.clone()),
        window_title: clone_opt(&app.window_title),
        content: Some(event.text.clone()),
        is_sensitive: 0,
        session_id: None,
        meta: EventMeta::ImeText { committed, length: count },
    };
    let mut finished: Option<SessionState> = None;
    match state.session.take() {
        Some(mut s) => {
            if s.app_bundle_id == app.bundle_id {
                if pause_after(gap_ms, pause_threshold_secs) {
                    s.pause_count = s.pause_count + 1;
                }
                push_str(&mut s.buffer, event.text.as_str());
                s.total_keystrokes = s.total_keystrokes + count as i32;
                s.last_input_time = instant_now();
                state.session = Some(s);
            } else {
                finished = Some(s);
                let mut n = create_new_session(app, now);
                push_str(&mut n.buffer, event.text.as_str());
                n.total_keystrokes = n.total_keystrokes + count as i32;
                state.session = Some(n);
            }
        },
        None => {
            let mut n = create_new_session(app, now);
            push_str(&mut n.buffer, event.text.as_str());
            n.total_keystrokes = n.total_keystrokes + count as i32;
            state.session = Some(n);
        },
    }
    state.event_count = state.event_count + 1;
    Recorded { event: Some(event_row), finished }
}

/// The outcome of a text event from the input method for `app`, when the
/// open session's last input came `gap_ms` milliseconds before. Nothing
/// happens while paused, in a blacklisted application or in a password field,
/// nor for text still being composed. Committed and direct text is logged and
/// added to the session of `app` (counting a pause after a gap over
/// `threshold_secs`); a session of another application ends and is handed
/// back and a new one opens. Direct text is also remembered, so that the same
/// key is not logged twice.
pub open spec fn ime_outcome(
    before: InputView,
    event: IMETextEvent,
    app: AppView,
    secure_field: bool,
    gap_ms: i64,
    threshold_secs: u64,
    after: InputView,
    row: Option<RawEventView>,
    finished: Option<SessionView>,
) -> bool {
    if before.paused || listed(app.bundle_id, blacklist()) || secure_field || event.text_type
        == IMETextType::Composing {
        after == before && row is None && finished is None
    } else {
        &&& row == Some(
            app_event_view(
                if event.text_type == IMETextType::Committed {
                    "ime_committed"@
                } else {
                    "ime_direct"@
                },
                app,
                event.timestamp,
                app.window_title,
                Some(event.text@),
                MetaView::ImeText {
                    committed: event.text_type == IMETextType::Committed,
                    length: event.text@.len() as usize,
                },
            ),
        )
        &&& after.event_count == before.event_count + 1
        &&& after.paused == before.paused
        &&& after.ime_direct_text == if event.text_type == IMETextType::Direct {
            Some(event.text@)
        } else {
            before.ime_direct_text
        }
        &&& match before.session {
            Some(s) => if s.app_bundle_id == app.bundle_id {
                &&& finished is None
                &&& after.session == Some(
                    text_on_session(s, event.text@, is_pause(gap_ms, threshold_secs)),
                )
            } else {
                &&& finished == Some(s)
                &&& (after.session matches Some(n) && text_opens_session(
                    n,
                    app,
                    event.timestamp,
                    event.text@,
                ))
            },
            None => {
                &&& finished is None
                &&& (after.session matches Some(n) && text_opens_session(
                    n,
                    app,
                    event.timestamp,
                    event.text@,
                ))
            },
        }
    }
}

/// Handles a text event from the input method for `app` when the open
/// session's last input came `gap_ms` milliseconds before; see [`ime_outcome`].
pub fn process_ime_text_event_after(
    state: &mut InputState,
    event: &IMETextEvent,
    app: &AppInfo,
    secure_field: bool,
    gap_ms: i64,
    pause_threshold_secs: u64,
) -> (r: Recorded)
    requires
        room(old(state)@, event.text@.len() as int),
    ensures
        ime_outcome(
            old(state)@,
            *event,
            app@,
            secure_field,
            gap_ms,
            pause_threshold_secs,
            final(state)@,
            opt_event(r.event),
            opt_session(r.finished),
        ),
{
    if state.paused {
        return nothing();
    }
    if is_blacklisted_sync(app.bundle_id.as_str()) {
        return nothing();
    }
    if secure_field {
        return nothing();
    }
    match event.text_type {
        IMETextType::Committed => record_ime_text(
            state,
            event,
            app,
            true,
            gap_ms,
            pause_threshold_secs,
        ),
        IMETextType::Direct => {
            state.last_ime_direct = Some((event.text.clone(), instant_now()));
            record_ime_text(state, event, app, false, gap_ms, pause_threshold_secs)
        },
        IMETextType::Composing => nothing(),
    }
}

/// Handles a text event from the input method for `app`. How long the open
/// session has been without input is read from the clock; the outcome is
/// [`ime_outcome`] for what was read.
pub fn process_ime_text_event(
    state: &mut InputState,
    event: &IMETextEvent,
    app: &AppInfo,
    secure_field: bool,
    pause_threshold_secs: u64,
) -> (r: Recorded)
    requires
        room(old(state)@, event.text@.len() as int),
    ensures
        exists|gap_ms: i64|
            #[trigger] ime_outcome(
                old(state)@,
                *event,
                app@,
                secure_field,
                gap_ms,
                pause_threshold_secs,
                final(state)@,
                opt_event(r.event),
                opt_session(r.finished),
            ),
{
    let gap_ms = match &state.session {
        Some(s) => crate::clock::elapsed_millis(&s.last_input_time),
        None => 0,
    };
    process_ime_text_event_after(state, event, app, secure_field, gap_ms, pause_threshold_secs)
}

/// The focused application where the platform offers no way to ask: a
/// development placeholder.
pub fn get_active_app_sync() -> (r: AppInfo)
    ensures
        r@ == (AppView {
            bundle_id: "com.example.dev"@,
            name: "Development"@,
            window_title: Some("Editor"@),
            pid: 0,
        }),
{
    AppInfo {
        bundle_id: "com.example.dev".to_owned(),
        name: "Development".to_owned(),
        window_title: Some("Editor".to_owned()),
        pid: 0,
    }
}

/// Accessibility permission where the platform asks for none: granted.
pub fn check_accessibility_permission() -> (r: bool)
    ensures
        r,
{
    true
}

} // verus!
