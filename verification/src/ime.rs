//! Text events sent by the input method over its local socket. A message is
//! a JSON object ended by a record separator (0x1E), or a line
//! `{timestamp_ms}|{text}` ended by a line feed.
use vstd::prelude::*;
use crate::clock::unix_millis;
use crate::text::str_chars;
use crate::todo::opt_string;

verus! {

/// The kind of text an input-method event carries.
#[derive(Debug, Clone, Copy, PartialEq, Eq, Structural)]
pub enum IMETextType {
    /// Typed directly (Latin letters, digits, symbols).
    Direct,
    /// Still being composed (pinyin, candidate selection).
    Composing,
    /// Committed (the final Chinese characters).
    Committed,
}

/// One text event from the input method.
#[derive(Debug, Clone)]
pub struct IMETextEvent {
    pub text_type: IMETextType,
    pub text: String,
    pub timestamp: i64,
    pub app_bundle_id: Option<String>,
    pub app_name: Option<String>,
}

/// The text type named by the message's `type` field; anything else is direct input.
pub open spec fn text_type_of(tag: Option<Seq<char>>) -> IMETextType {
    match tag {
        Some(t) => if t == "composing"@ {
            IMETextType::Composing
        } else if t == "committed"@ {
            IMETextType::Committed
        } else {
            IMETextType::Direct
        },
        None => IMETextType::Direct,
    }
}

/// Reads the `type` field of an input-method message.
pub fn text_type_from_tag(tag: Option<&str>) -> (r: IMETextType)
    ensures
        r == text_type_of(
            match tag {
                Some(t) => Some(t@),
                None => None,
            },
        ),
{
    match tag {
        Some(t) => {
            let v = str_chars(t);
            if crate::text::chars_eq(&v, &str_chars("composing")) {
                IMETextType::Composing
            } else if crate::text::chars_eq(&v, &str_chars("committed")) {
                IMETextType::Committed
            } else {
                IMETextType::Direct
            }
        },
        None => IMETextType::Direct,
    }
}

fn owned(s: Option<&str>) -> (r: Option<String>)
    ensures
        opt_string(r) == match s {
            Some(t) => Some(t@),
            None => None,
        },
{
    match s {
        Some(t) => Some(t.to_owned()),
        None => None,
    }
}

/// Builds an event from the fields of a decoded message: a missing text is
/// empty, and a missing timestamp (milliseconds) is taken from the clock.
pub fn ime_event_from_fields(
    tag: Option<&str>,
    text: Option<&str>,
    timestamp_ms: Option<i64>,
    app_bundle_id: Option<&str>,
    app_name: Option<&str>,
) -> (r: IMETextEvent)
    ensures
        r.text_type == text_type_of(
            match tag {
                Some(t) => Some(t@),
                None => None,
            },
        ),
        r.text@ == match text {
            Some(t) => t@,
            None => Seq::<char>::empty(),
        },
        timestamp_ms matches Some(t) ==> r.timestamp == t,
        opt_string(r.app_bundle_id) == match app_bundle_id {
            Some(t) => Some(t@),
            None => None,
        },
        opt_string(r.app_name) == match app_name {
            Some(t) => Some(t@),
            None => None,
        },
{
    let text_type = text_type_from_tag(tag);
    let timestamp = match timestamp_ms {
        Some(t) => t,
        None => unix_millis(),
    };
    let text = match text {
        Some(t) => t.to_owned(),
        None => String::new(),
    };
    IMETextEvent {
        text_type,
        text,
        timestamp,
        app_bundle_id: owned(app_bundle_id),
        app_name: owned(app_name),
    }
}

/// The record separator that ends each message on the socket.
pub const RECORD_SEPARATOR: u8 = 0x1E;

/// The message in a chunk read up to a record separator: the separator at
/// its end is dropped, and an empty message is skipped.
pub open spec fn payload_of(chunk: Seq<u8>) -> Option<Seq<u8>> {
    let body = if chunk.len() > 0 && chunk.last() == 0x1Eu8 {
        chunk.drop_last()
    } else {
        chunk
    };
    if body.len() == 0 {
        None
    } else {
        Some(body)
    }
}

/// Takes the message out of a chunk read from the socket.
pub fn record_payload(chunk: &Vec<u8>) -> (r: Option<Vec<u8>>)
    ensures
        match r {
            Some(b) => payload_of(chunk@) == Some(b@),
            None => payload_of(chunk@) is None,
        },
{
    let mut body = chunk.clone();
    if body.len() > 0 && body[body.len() - 1] == RECORD_SEPARATOR {
        body.pop();
    }
    if body.len() == 0 {
        None
    } else {
        Some(body)
    }
}

// ---------------------------------------------------------------------------
// Framing
// ---------------------------------------------------------------------------

/// The bytes that end a message: the record separator and the line feed.
pub open spec fn is_message_end(b: u8) -> bool {
    b == 0x1Eu8 || b == 0x0Au8
}

/// `s` holds no message end.
pub open spec fn no_message_end(s: Seq<u8>) -> bool {
    forall|i: int| 0 <= i < s.len() ==> !is_message_end(#[trigger] s[i])
}

/// The messages that the bytes `s` complete, in order (empty ones skipped),
/// and the unfinished rest.
pub open spec fn split_messages(s: Seq<u8>) -> (Seq<Seq<u8>>, Seq<u8>)
    decreases s.len(),
{
    if s.len() == 0 {
        (seq![], seq![])
    } else {
        let prev = split_messages(s.drop_last());
        if is_message_end(s.last()) {
            (
                if prev.1.len() > 0 {
                    prev.0.push(prev.1)
                } else {
                    prev.0
                },
                seq![],
            )
        } else {
            (prev.0, prev.1.push(s.last()))
        }
    }
}

pub open spec fn byte_views(v: Seq<Vec<u8>>) -> Seq<Seq<u8>> {
    Seq::new(v.len(), |i: int| v[i]@)
}

proof fn lemma_split_without_end(s: Seq<u8>)
    requires
        no_message_end(s),
    ensures
        split_messages(s) == (Seq::<Seq<u8>>::empty(), s),
    decreases s.len(),
{
    if s.len() > 0 {
        lemma_split_without_end(s.drop_last());
        assert(s.drop_last().push(s.last()) =~= s);
    }
}

/// Adds the bytes `data` read from the socket to the unfinished message
/// `pending`, and takes out the messages they complete.
pub fn take_messages(pending: &mut Vec<u8>, data: &[u8]) -> (r: Vec<Vec<u8>>)
    requires
        no_message_end(old(pending)@),
    ensures
        byte_views(r@) == split_messages(old(pending)@ + data@).0,
        final(pending)@ == split_messages(old(pending)@ + data@).1,
        no_message_end(final(pending)@),
{
    let ghost start = pending@;
    let mut out: Vec<Vec<u8>> = Vec::new();
    let mut i: usize = 0;
    proof {
        lemma_split_without_end(start);
        assert(start + data@.take(0) =~= start);
    }
    while i < data.len()
        invariant
            i <= data.len(),
            byte_views(out@) == split_messages(start + data@.take(i as int)).0,
            pending@ == split_messages(start + data@.take(i as int)).1,
            no_message_end(pending@),
        decreases data.len() - i,
    {
        let ghost prev = split_messages(start + data@.take(i as int));
        let b = data[i];
        assert((start + data@.take(i + 1)).drop_last() =~= start + data@.take(i as int));
        assert((start + data@.take(i + 1)).last() == b);
        if b == 0x1E || b == 0x0A {
            if pending.len() > 0 {
                let ghost before = out@;
                let mut m: Vec<u8> = Vec::new();
                std::mem::swap(&mut m, pending);
                out.push(m);
                assert(byte_views(out@) =~= byte_views(before).push(prev.1));
            } else {
                pending.clear();
            }
            assert(pending@ =~= Seq::<u8>::empty());
        } else {
            pending.push(b);
        }
        i += 1;
    }
    assert(data@.take(data@.len() as int) =~= data@);
    out
}

// ---------------------------------------------------------------------------
// Line messages: `{timestamp_ms}|{text}`
// ---------------------------------------------------------------------------

/// Index of the first `|` in `p`, or its length when there is none.
pub open spec fn first_bar(p: Seq<u8>) -> nat
    decreases p.len(),
{
    if p.len() == 0 {
        0
    } else if p[0] == 0x7Cu8 {
        0
    } else {
        1 + first_bar(p.drop_first())
    }
}

pub open spec fn is_digit_byte(b: u8) -> bool {
    0x30u8 <= b <= 0x39u8
}

/// The number the ASCII digits `d` write.
pub open spec fn bytes_value(d: Seq<u8>) -> nat
    decreases d.len(),
{
    if d.len() == 0 {
        0
    } else {
        bytes_value(d.drop_last()) * 10 + (d.last() - 0x30u8) as nat
    }
}

pub open spec fn pow10(n: nat) -> nat
    decreases n,
{
    if n == 0 {
        1
    } else {
        10 * pow10((n - 1) as nat)
    }
}

/// A line message: one to eighteen ASCII digits (the time in milliseconds),
/// a `|`, and the text's bytes.
pub open spec fn line_message_of(p: Seq<u8>) -> Option<(int, Seq<u8>)> {
    let k = first_bar(p);
    if k < p.len() && 1 <= k <= 18 && (forall|i: int| 0 <= i < k ==> is_digit_byte(#[trigger] p[i])) {
        Some((bytes_value(p.take(k as int)) as int, p.skip(k + 1 as int)))
    } else {
        None
    }
}

proof fn lemma_first_bar(p: Seq<u8>)
    ensures
        first_bar(p) <= p.len(),
        first_bar(p) < p.len() ==> p[first_bar(p) as int] == 0x7Cu8,
        forall|i: int| 0 <= i < first_bar(p) ==> p[i] != 0x7Cu8,
    decreases p.len(),
{
    if p.len() > 0 && p[0] != 0x7Cu8 {
        lemma_first_bar(p.drop_first());
        assert forall|i: int| 0 <= i < first_bar(p) implies p[i] != 0x7Cu8 by {
            if i > 0 {
                assert(p[i] == p.drop_first()[i - 1]);
            }
        }
    }
}

/// Reads a line message: its time and the bytes of its text.
pub fn line_message(p: &Vec<u8>) -> (r: Option<(i64, Vec<u8>)>)
    ensures
        match line_message_of(p@) {
            Some(m) => r matches Some(x) && x.0 == m.0 && x.1@ == m.1,
            None => r is None,
        },
{
    proof {
        lemma_first_bar(p@);
    }
    let mut i: usize = 0;
    let mut value: i64 = 0;
    while i < p.len() && p[i] != 0x7C
        invariant
            i <= p.len(),
            i <= 18,
            i <= first_bar(p@),
            first_bar(p@) <= p.len(),
            first_bar(p@) < p.len() ==> p@[first_bar(p@) as int] == 0x7Cu8,
            value == bytes_value(p@.take(i as int)),
            value < pow10(i as nat),
            forall|j: int| 0 <= j < i ==> is_digit_byte(#[trigger] p@[j]),
        decreases p.len() - i,
    {
        assert(i < first_bar(p@));
        if i >= 18 || p[i] < 0x30 || p[i] > 0x39 {
            proof {
                if i < 18 {
                    assert(!is_digit_byte(p@[i as int]));
                }
            }
            return None;
        }
        let d = (p[i] - 0x30) as i64;
        assert(p@.take(i + 1).drop_last() =~= p@.take(i as int));
        assert(value * 10 + d < pow10((i + 1) as nat)) by (nonlinear_arith)
            requires
                value < pow10(i as nat),
                0 <= d <= 9,
                pow10((i + 1) as nat) == 10 * pow10(i as nat),
        ;
        assert(pow10(18) == 1_000_000_000_000_000_000) by {
            reveal_with_fuel(pow10, 19);
        }
        assert(pow10((i + 1) as nat) <= pow10(18)) by {
            lemma_pow10_mono((i + 1) as nat, 18);
        }
        value = value * 10 + d;
        i += 1;
    }
    assert(i == first_bar(p@));
    if i == p.len() || i == 0 {
        return None;
    }
    let text = crate::text::subvec_bytes(p, i + 1, p.len());
    assert(p@.subrange(i + 1, p@.len() as int) =~= p@.skip(i + 1));
    Some((value, text))
}

proof fn lemma_pow10_mono(a: nat, b: nat)
    requires
        a <= b,
    ensures
        pow10(a) <= pow10(b),
    decreases b,
{
    if a < b {
        lemma_pow10_mono(a, (b - 1) as nat);
    }
}

/// What `String::from_utf8` reads in the bytes `b`: their text, when they are
/// valid UTF-8.
pub uninterp spec fn utf8_text(b: Seq<u8>) -> Option<Seq<char>>;

/// `String::from_utf8(b).ok()`.
#[verifier::external_body]
fn decode_utf8(b: Vec<u8>) -> (r: Option<String>)
    ensures
        opt_string(r) == utf8_text(b@),
{
    String::from_utf8(b).ok()
}

/// The event a line message gives: committed text at the time it names;
/// nothing when the message is not a line message or its text is not UTF-8.
pub open spec fn line_event_is(p: Seq<u8>, r: Option<IMETextEvent>) -> bool {
    match line_message_of(p) {
        Some(m) => match utf8_text(m.1) {
            Some(t) => r matches Some(e) && e.text_type == IMETextType::Committed && e.text@ == t
                && e.timestamp == m.0 && e.app_bundle_id is None && e.app_name is None,
            None => r is None,
        },
        None => r is None,
    }
}

/// Reads a line message `{timestamp_ms}|{text}` as an input-method event.
pub fn ime_event_from_line(p: &Vec<u8>) -> (r: Option<IMETextEvent>)
    ensures
        line_event_is(p@, r),
{
    match line_message(p) {
        Some((ts, bytes)) => match decode_utf8(bytes) {
            Some(text) => Some(
                IMETextEvent {
                    text_type: IMETextType::Committed,
                    text,
                    timestamp: ts,
                    app_bundle_id: None,
                    app_name: None,
                },
            ),
            None => None,
        },
        None => None,
    }
}

} // verus!
