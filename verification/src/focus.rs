//! Focus tracking: which application or web site has the focus, and how long
//! it kept it. The tracker samples every five seconds.
use vstd::prelude::*;
use std::time::Instant;
use crate::clock::{elapsed_secs, instant_now};
use crate::input::AppInfo;
use crate::privacy::{in_list, listed, literal_list, str_views};
use crate::text::{has_prefix, push_str, starts_with, str_chars, string_of, subvec};
use crate::todo::opt_string;
use crate::dates::{date_text, day_number, valid_date, CivilDate};
use chrono::Timelike;

verus! {

/// What has the focus: an application (`app`) or a web site (`domain`).
#[derive(Clone, Debug)]
pub struct FocusTarget {
    pub target_type: String,
    pub target_id: String,
    pub target_name: String,
}

pub struct TargetView {
    pub target_type: Seq<char>,
    pub target_id: Seq<char>,
    pub target_name: Seq<char>,
}

impl View for FocusTarget {
    type V = TargetView;

    open spec fn view(&self) -> TargetView {
        TargetView {
            target_type: self.target_type@,
            target_id: self.target_id@,
            target_name: self.target_name@,
        }
    }
}

/// A stretch of time during which one target kept the focus.
#[derive(Clone, Debug)]
pub struct FocusSession {
    pub start_time: i64,
    pub last_seen: Instant,
    pub duration: i64,
    pub target: FocusTarget,
}

/// Seconds between two samples of the tracker.
pub const FOCUS_TICK_SECS: i64 = 5;

/// Longest gap (seconds) after which a session still counts as continuous.
pub const FOCUS_GAP_SECS: i64 = 60;

// ---------------------------------------------------------------------------
// Browsers and domains
// ---------------------------------------------------------------------------

/// Web browsers whose current page is asked for.
pub open spec fn browsers() -> Seq<Seq<char>> {
    seq![
        "com.apple.Safari"@,
        "com.google.Chrome"@,
        "com.google.Chrome.canary"@,
        "org.mozilla.firefox"@,
        "com.microsoft.edgemac"@,
        "com.brave.Browser"@,
        "com.apple.SafariTechnologyPreview"@,
        "com.operasoftware.Opera"@,
        "com.vivaldi.Vivaldi"@,
    ]
}

/// Whether the application `bundle_id` is a web browser.
pub fn is_browser(bundle_id: &str) -> (r: bool)
    ensures
        r == listed(bundle_id@, browsers()),
{
    let lits = [
        "com.apple.Safari",
        "com.google.Chrome",
        "com.google.Chrome.canary",
        "org.mozilla.firefox",
        "com.microsoft.edgemac",
        "com.brave.Browser",
        "com.apple.SafariTechnologyPreview",
        "com.operasoftware.Opera",
        "com.vivaldi.Vivaldi",
    ];
    let list = literal_list(&lits);
    assert(str_views(lits@) =~= browsers());
    in_list(&str_chars(bundle_id), &list)
}

/// Index of the first `c` in `s`, or its length.
pub open spec fn first_index_of(s: Seq<char>, c: char) -> int {
    if s.contains(c) {
        choose|i: int| 0 <= i < s.len() && s[i] == c && forall|j: int| 0 <= j < i ==> s[j] != c
    } else {
        s.len() as int
    }
}

/// `s` up to its first `c`.
pub open spec fn before_char(s: Seq<char>, c: char) -> Seq<char> {
    s.take(first_index_of(s, c))
}

/// The host of an `http` or `https` address without port and without a
/// leading `www.`; nothing for other addresses or an empty host.
pub open spec fn domain_of(url: Seq<char>) -> Option<Seq<char>> {
    let rest = if starts_with(url, "https://"@) {
        Some(url.skip(8))
    } else if starts_with(url, "http://"@) {
        Some(url.skip(7))
    } else {
        None
    };
    match rest {
        Some(r) => {
            let host = before_char(r, '/');
            let domain = before_char(host, ':');
            let clean = if starts_with(domain, "www."@) {
                domain.skip(4)
            } else {
                domain
            };
            if clean.len() == 0 {
                None
            } else {
                Some(clean)
            }
        },
        None => None,
    }
}

fn take_before(v: &Vec<char>, c: char) -> (r: Vec<char>)
    ensures
        r@ == before_char(v@, c),
{
    let mut i: usize = 0;
    while i < v.len() && v[i] != c
        invariant
            i <= v.len(),
            forall|j: int| 0 <= j < i ==> v@[j] != c,
        decreases v.len() - i,
    {
        i += 1;
    }
    proof {
        if v@.contains(c) {
            let k = choose|k: int| 0 <= k < v@.len() && v@[k] == c && forall|j: int| 0 <= j < k ==> v@[j] != c;
            assert(i < v.len());
            if k < i {
                assert(v@[k] != c);
            }
            if i < k {
                assert(v@[i as int] != c);
            }
            assert(first_index_of(v@, c) == i);
        } else {
            if i < v.len() {
                assert(v@.contains(v@[i as int]));
            }
        }
    }
    subvec(v, 0, i)
}

/// The domain of a web address (`https://www.example.com:8080/a` gives `example.com`).
pub fn extract_domain(url: &str) -> (r: Option<String>)
    ensures
        opt_string(r) == domain_of(url@),
{
    let u = str_chars(url);
    let https = str_chars("https://");
    let http = str_chars("http://");
    let rest = if has_prefix(&u, &https) {
        proof {
            assert(https@.len() == 8) by {
                reveal_strlit("https://");
            }
        }
        subvec(&u, 8, u.len())
    } else if has_prefix(&u, &http) {
        proof {
            assert(http@.len() == 7) by {
                reveal_strlit("http://");
            }
        }
        subvec(&u, 7, u.len())
    } else {
        return None;
    };
    let host = take_before(&rest, '/');
    let domain = take_before(&host, ':');
    let www = str_chars("www.");
    let clean = if has_prefix(&domain, &www) {
        proof {
            assert(www@.len() == 4) by {
                reveal_strlit("www.");
            }
        }
        subvec(&domain, 4, domain.len())
    } else {
        domain
    };
    if clean.len() == 0 {
        None
    } else {
        Some(string_of(&clean))
    }
}

/// The AppleScript that asks a browser for the address of its current tab.
pub open spec fn browser_script_of(bundle_id: Seq<char>) -> Option<Seq<char>> {
    if bundle_id == "com.apple.Safari"@ || bundle_id == "com.apple.SafariTechnologyPreview"@ {
        Some("tell application \"Safari\" to get URL of current tab of front window"@)
    } else if bundle_id == "com.google.Chrome"@ || bundle_id == "com.google.Chrome.canary"@ {
        Some("tell application \"Google Chrome\" to get URL of active tab of front window"@)
    } else if bundle_id == "org.mozilla.firefox"@ {
        Some("tell application \"Firefox\" to get URL of active tab of front window"@)
    } else if bundle_id == "com.microsoft.edgemac"@ {
        Some("tell application \"Microsoft Edge\" to get URL of active tab of front window"@)
    } else if bundle_id == "com.brave.Browser"@ {
        Some("tell application \"Brave Browser\" to get URL of active tab of front window"@)
    } else if bundle_id == "com.operasoftware.Opera"@ {
        Some("tell application \"Opera\" to get URL of active tab of front window"@)
    } else if bundle_id == "com.vivaldi.Vivaldi"@ {
        Some("tell application \"Vivaldi\" to get URL of active tab of front window"@)
    } else {
        None
    }
}

fn is_lit(v: &Vec<char>, lit: &str) -> (r: bool)
    ensures
        r == (v@ == lit@),
{
    crate::text::chars_eq(v, &str_chars(lit))
}

/// The AppleScript that asks the browser `bundle_id` for its current address.
pub fn browser_script(bundle_id: &str) -> (r: Option<String>)
    ensures
        opt_string(r) == browser_script_of(bundle_id@),
{
    let b = str_chars(bundle_id);
    if is_lit(&b, "com.apple.Safari") || is_lit(&b, "com.apple.SafariTechnologyPreview") {
        Some("tell application \"Safari\" to get URL of current tab of front window".to_owned())
    } else if is_lit(&b, "com.google.Chrome") || is_lit(&b, "com.google.Chrome.canary") {
        Some("tell application \"Google Chrome\" to get URL of active tab of front window".to_owned())
    } else if is_lit(&b, "org.mozilla.firefox") {
        Some("tell application \"Firefox\" to get URL of active tab of front window".to_owned())
    } else if is_lit(&b, "com.microsoft.edgemac") {
        Some("tell application \"Microsoft Edge\" to get URL of active tab of front window".to_owned())
    } else if is_lit(&b, "com.brave.Browser") {
        Some("tell application \"Brave Browser\" to get URL of active tab of front window".to_owned())
    } else if is_lit(&b, "com.operasoftware.Opera") {
        Some("tell application \"Opera\" to get URL of active tab of front window".to_owned())
    } else if is_lit(&b, "com.vivaldi.Vivaldi") {
        Some("tell application \"Vivaldi\" to get URL of active tab of front window".to_owned())
    } else {
        None
    }
}

/// What a browser's answer gives: the trimmed text when it is an `http` or
/// `https` address.
pub open spec fn browser_url_of(output: Seq<char>) -> Option<Seq<char>> {
    let t = crate::text::trim(output);
    if starts_with(t, "http://"@) || starts_with(t, "https://"@) {
        Some(t)
    } else {
        None
    }
}

/// Reads a browser's answer to the address question.
pub fn browser_url_from_output(output: &str) -> (r: Option<String>)
    ensures
        opt_string(r) == browser_url_of(output@),
{
    let v = str_chars(output);
    let (a, b) = crate::text::trim_bounds(&v);
    let t = subvec(&v, a, b);
    if has_prefix(&t, &str_chars("http://")) || has_prefix(&t, &str_chars("https://")) {
        Some(string_of(&t))
    } else {
        None
    }
}

// ---------------------------------------------------------------------------
// Targets and sessions
// ---------------------------------------------------------------------------

/// The target for the focused application `app`, given the address its
/// browser window shows (if asked): the web site when `app` is a browser
/// showing an address with a domain, else the application.
pub open spec fn target_of(app_bundle: Seq<char>, app_name: Seq<char>, url: Option<Seq<char>>) -> TargetView {
    if listed(app_bundle, browsers()) && url is Some && domain_of(url->0) is Some {
        let d = domain_of(url->0)->0;
        TargetView {
            target_type: "domain"@,
            target_id: "domain:"@ + d,
            target_name: app_name + " ("@ + d + ")"@,
        }
    } else {
        TargetView { target_type: "app"@, target_id: app_bundle, target_name: app_name }
    }
}

/// The focus target for `app`, with the address its browser shows, if any.
pub fn focus_target_for(app: &AppInfo, url: Option<&str>) -> (r: FocusTarget)
    ensures
        r@ == target_of(
            app.bundle_id@,
            app.name@,
            match url {
                Some(u) => Some(u@),
                None => None,
            },
        ),
{
    if is_browser(app.bundle_id.as_str()) {
        if let Some(u) = url {
            if let Some(d) = extract_domain(u) {
                let mut id = "domain:".to_owned();
                push_str(&mut id, d.as_str());
                let mut name = app.name.clone();
                push_str(&mut name, " (");
                push_str(&mut name, d.as_str());
                push_str(&mut name, ")");
                return FocusTarget { target_type: "domain".to_owned(), target_id: id, target_name: name };
            }
        }
    }
    FocusTarget {
        target_type: "app".to_owned(),
        target_id: app.bundle_id.clone(),
        target_name: app.name.clone(),
    }
}

fn clone_target(t: &FocusTarget) -> (r: FocusTarget)
    ensures
        r@ == t@,
{
    FocusTarget {
        target_type: t.target_type.clone(),
        target_id: t.target_id.clone(),
        target_name: t.target_name.clone(),
    }
}

/// Opens a focus session for `target` at `now` (seconds), counting one sample.
pub fn create_new_session(target: &FocusTarget, now: i64) -> (r: FocusSession)
    ensures
        r.start_time == now,
        r.duration == FOCUS_TICK_SECS,
        r.target@ == target@,
{
    FocusSession {
        start_time: now,
        last_seen: instant_now(),
        duration: FOCUS_TICK_SECS,
        target: clone_target(target),
    }
}

/// What is stored for a finished focus session.
#[derive(Clone, Debug)]
pub struct FocusRecord {
    pub start_time: i64,
    pub end_time: i64,
    pub duration: i64,
    pub target_type: String,
    pub target_id: String,
    pub target_name: String,
}

/// The record of a finished focus session: it ends `duration` seconds after it started.
pub fn focus_record(session: &FocusSession) -> (r: FocusRecord)
    requires
        session.start_time + session.duration <= i64::MAX,
        session.start_time + session.duration >= i64::MIN,
    ensures
        r.start_time == session.start_time,
        r.end_time == session.start_time + session.duration,
        r.duration == session.duration,
        r.target_type@ == session.target.target_type@,
        r.target_id@ == session.target.target_id@,
        r.target_name@ == session.target.target_name@,
{
    FocusRecord {
        start_time: session.start_time,
        end_time: session.start_time + session.duration,
        duration: session.duration,
        target_type: session.target.target_type.clone(),
        target_id: session.target.target_id.clone(),
        target_name: session.target.target_name.clone(),
    }
}

/// The UTC day (`%Y-%m-%d`) and hour under which a session starting at
/// `start` (seconds) is added up, when that day is a date of chrono's calendar.
pub open spec fn focus_bucket_of(start: int) -> Option<(Seq<char>, int)> {
    let days = start / 86400;
    if exists|d: CivilDate| valid_date(d) && #[trigger] day_number(d) == days {
        let d = choose|d: CivilDate| valid_date(d) && #[trigger] day_number(d) == days;
        Some((date_text(d), (start % 86400) / 3600))
    } else {
        None
    }
}

/// `DateTime::from_timestamp(start, 0)`: its `%Y-%m-%d` text and its hour, or
/// nothing where chrono gives no time (the day `start / 86400` after
/// 1970-01-01 must be a date of its calendar).
#[verifier::external_body]
fn utc_day_and_hour(start: i64) -> (r: Option<(String, u32)>)
    ensures
        match r {
            Some(p) => focus_bucket_of(start as int) == Some((p.0@, p.1 as int)),
            None => focus_bucket_of(start as int) is None,
        },
{
    match chrono::DateTime::from_timestamp(start, 0) {
        Some(t) => Some((t.format("%Y-%m-%d").to_string(), t.hour())),
        None => None,
    }
}

/// The day and hour a finished session is added to in the daily and hourly
/// totals; `None` when its start lies outside the calendar.
pub fn focus_bucket(start: i64) -> (r: Option<(String, i32)>)
    ensures
        match r {
            Some(p) => focus_bucket_of(start as int) == Some((p.0@, p.1 as int)),
            None => focus_bucket_of(start as int) is None,
        },
{
    match utc_day_and_hour(start) {
        Some((day, hour)) => {
            proof {
                assert(0 <= start % 86400 < 86400);
            }
            Some((day, hour as i32))
        },
        None => None,
    }
}

pub struct FocusSessionView {
    pub start_time: i64,
    pub duration: i64,
    pub target: TargetView,
}

pub open spec fn focus_view(o: Option<FocusSession>) -> Option<FocusSessionView> {
    match o {
        Some(s) => Some(FocusSessionView { start_time: s.start_time, duration: s.duration, target: s.target@ }),
        None => None,
    }
}

/// The room a session needs to take one more sample and to be stored.
pub open spec fn focus_room(o: Option<FocusSession>) -> bool {
    o matches Some(s) ==> s.duration <= i64::MAX - FOCUS_TICK_SECS && s.start_time + s.duration
        + FOCUS_TICK_SECS <= i64::MAX && s.start_time + s.duration >= i64::MIN
}

/// Whether [`focus_room`] holds, so that a sample may be taken.
pub fn focus_has_room(current: &Option<FocusSession>) -> (r: bool)
    ensures
        r == focus_room(*current),
{
    match current {
        Some(s) => {
            if s.duration > i64::MAX - FOCUS_TICK_SECS {
                return false;
            }
            let end = s.start_time as i128 + s.duration as i128;
            end + 5 <= i64::MAX as i128 && end >= i64::MIN as i128
        },
        None => true,
    }
}

/// `rec` is the stored form of the session `s`: it ends `duration` seconds
/// after it started.
pub open spec fn record_of(rec: FocusRecord, s: FocusSessionView) -> bool {
    &&& rec.start_time == s.start_time
    &&& rec.end_time == s.start_time + s.duration
    &&& rec.duration == s.duration
    &&& rec.target_type@ == s.target.target_type
    &&& rec.target_id@ == s.target.target_id
    &&& rec.target_name@ == s.target.target_name
}

/// The session to store before a sample with `active` focused, when the
/// current session was last seen `idle` seconds ago: the current one, when
/// the focus moved to another target and the session was seen at most a
/// minute ago.
pub open spec fn to_store(before: Option<FocusSessionView>, active: TargetView, idle: i64) -> Option<
    FocusSessionView,
> {
    match before {
        Some(s) => if s.target.target_id != active.target_id && idle <= FOCUS_GAP_SECS {
            Some(s)
        } else {
            None
        },
        None => None,
    }
}

/// One sample: `before` and `after` are the current session before and
/// after it; `stored` tells whether the session to store (see [`to_store`])
/// was stored. The same target extends the session by one sample; another
/// target opens a new session, except that a session that had to be stored
/// and was not stays in place.
pub open spec fn focus_step(
    before: Option<FocusSessionView>,
    active: TargetView,
    now: i64,
    idle: i64,
    stored: bool,
    after: Option<FocusSessionView>,
) -> bool {
    match before {
        Some(s) => if s.target.target_id == active.target_id {
            after == Some(FocusSessionView { duration: (s.duration + FOCUS_TICK_SECS) as i64, ..s })
        } else if idle <= FOCUS_GAP_SECS && !stored {
            after == before
        } else {
            after == Some(FocusSessionView { start_time: now, duration: FOCUS_TICK_SECS, target: active })
        },
        None => after == Some(
            FocusSessionView { start_time: now, duration: FOCUS_TICK_SECS, target: active },
        ),
    }
}

/// The record to store before a sample with `active` focused, when the
/// current session was last seen `idle_secs` seconds ago.
pub fn focus_pending_record(current: &Option<FocusSession>, active: &FocusTarget, idle_secs: i64) -> (r:
    Option<FocusRecord>)
    requires
        focus_room(*current),
    ensures
        match to_store(focus_view(*current), active@, idle_secs) {
            Some(s) => r matches Some(rec) && record_of(rec, s),
            None => r is None,
        },
{
    match current {
        Some(s) => {
            let same = crate::text::chars_eq(
                &str_chars(s.target.target_id.as_str()),
                &str_chars(active.target_id.as_str()),
            );
            if !same && idle_secs <= FOCUS_GAP_SECS {
                Some(focus_record(s))
            } else {
                None
            }
        },
        None => None,
    }
}

/// One sample of the tracker at `now` (seconds) with `active` focused, when
/// the current session was last seen `idle_secs` seconds ago and `stored`
/// tells whether the record [`focus_pending_record`] gave was stored.
pub fn focus_tick_after(
    current: &mut Option<FocusSession>,
    active: &FocusTarget,
    now: i64,
    idle_secs: i64,
    stored: bool,
)
    requires
        focus_room(*old(current)),
    ensures
        focus_step(focus_view(*old(current)), active@, now, idle_secs, stored, focus_view(*final(current))),
{
    match current.take() {
        Some(mut s) => {
            let same = crate::text::chars_eq(
                &str_chars(s.target.target_id.as_str()),
                &str_chars(active.target_id.as_str()),
            );
            if same {
                s.duration = s.duration + FOCUS_TICK_SECS;
                s.last_seen = instant_now();
                *current = Some(s);
            } else if idle_secs <= FOCUS_GAP_SECS && !stored {
                *current = Some(s);
            } else {
                *current = Some(create_new_session(active, now));
            }
        },
        None => {
            *current = Some(create_new_session(active, now));
        },
    }
}

/// The first half of a sample with `active` focused: how long ago (seconds)
/// the current session was last seen, read from the clock, and the record to
/// store for that, if any. The sample ends with [`focus_tick_after`] once the
/// record was stored (or failed to be).
pub fn focus_tick(current: &Option<FocusSession>, active: &FocusTarget) -> (r: (i64, Option<FocusRecord>))
    requires
        focus_room(*current),
    ensures
        match to_store(focus_view(*current), active@, r.0) {
            Some(s) => r.1 matches Some(rec) && record_of(rec, s),
            None => r.1 is None,
        },
{
    let idle: i64 = match current {
        Some(s) => elapsed_secs(&s.last_seen) as i64,
        None => 0,
    };
    (idle, focus_pending_record(current, active, idle))
}

} // verus!
