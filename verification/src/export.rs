//! Exports: raw events as CSV, and the cut-off of the data clean-up.
use vstd::prelude::*;
use crate::text::{int_text, push_char, push_chars, push_int, str_chars};
use crate::todo::opt_string;

verus! {

/// A field must be quoted when it holds a comma, a quote or a line break.
pub open spec fn needs_quotes(s: Seq<char>) -> bool {
    s.contains(',') || s.contains('"') || s.contains('\n') || s.contains('\r')
}

/// `s` with each quote doubled.
pub open spec fn double_quotes(s: Seq<char>) -> Seq<char>
    decreases s.len(),
{
    if s.len() == 0 {
        seq![]
    } else if s.last() == '"' {
        double_quotes(s.drop_last()) + seq!['"', '"']
    } else {
        double_quotes(s.drop_last()).push(s.last())
    }
}

/// A CSV field (RFC 4180 style): quoted, with inner quotes doubled, when it
/// holds a comma, a quote or a line break; as it is otherwise.
pub open spec fn csv_field(s: Seq<char>) -> Seq<char> {
    if needs_quotes(s) {
        seq!['"'] + double_quotes(s) + seq!['"']
    } else {
        s
    }
}

fn push_escaped(out: &mut String, s: &str)
    ensures
        final(out)@ == old(out)@ + csv_field(s@),
{
    let v = str_chars(s);
    let quote = crate::text::has_char(&v, ',') || crate::text::has_char(&v, '"')
        || crate::text::has_char(&v, '\n') || crate::text::has_char(&v, '\r');
    if !quote {
        push_chars(out, &v);
        return;
    }
    let ghost start = out@;
    push_char(out, '"');
    let mut i: usize = 0;
    while i < v.len()
        invariant
            i <= v.len(),
            out@ == start + seq!['"'] + double_quotes(v@.take(i as int)),
        decreases v.len() - i,
    {
        assert(v@.take(i + 1).drop_last() =~= v@.take(i as int));
        if v[i] == '"' {
            push_char(out, '"');
            push_char(out, '"');
            assert(out@ =~= start + seq!['"'] + double_quotes(v@.take(i + 1)));
        } else {
            push_char(out, v[i]);
            assert(out@ =~= start + seq!['"'] + double_quotes(v@.take(i + 1)));
        }
        i += 1;
    }
    push_char(out, '"');
    assert(v@.take(v@.len() as int) =~= v@);
    assert(out@ =~= start + csv_field(s@));
}

/// Escapes one CSV field.
pub fn csv_escape(s: &str) -> (r: String)
    ensures
        r@ == csv_field(s@),
{
    let mut out = String::new();
    push_escaped(&mut out, s);
    assert(out@ =~= csv_field(s@));
    out
}

/// One raw event of the CSV export.
#[derive(Clone, Debug)]
pub struct CsvRow {
    pub timestamp: i64,
    pub event_type: String,
    pub app_name: Option<String>,
    pub content: Option<String>,
    pub session_id: Option<String>,
}

/// The CSV header line.
pub open spec fn csv_header() -> Seq<char> {
    "timestamp,event_type,app_name,content,session_id"@.push('\n')
}

pub open spec fn or_empty(o: Option<Seq<char>>) -> Seq<char> {
    match o {
        Some(s) => s,
        None => Seq::<char>::empty(),
    }
}

/// One CSV line: the timestamp and the escaped fields, a missing field empty.
pub open spec fn csv_line(r: CsvRow) -> Seq<char> {
    int_text(r.timestamp as int) + seq![','] + csv_field(r.event_type@) + seq![','] + csv_field(
        or_empty(opt_string(r.app_name)),
    ) + seq![','] + csv_field(or_empty(opt_string(r.content))) + seq![','] + csv_field(
        or_empty(opt_string(r.session_id)),
    ) + seq!['\n']
}

/// The CSV text of `rows`.
pub open spec fn csv_text(rows: Seq<CsvRow>) -> Seq<char>
    decreases rows.len(),
{
    if rows.len() == 0 {
        csv_header()
    } else {
        csv_text(rows.drop_last()) + csv_line(rows.last())
    }
}

fn push_opt_escaped(out: &mut String, o: &Option<String>)
    ensures
        final(out)@ == old(out)@ + csv_field(or_empty(opt_string(*o))),
{
    match o {
        Some(s) => push_escaped(out, s.as_str()),
        None => {
            push_escaped(out, "");
            proof {
                reveal_strlit("");
            }
            assert(""@ =~= or_empty(opt_string(*o)));
        },
    }
}

fn push_csv_line(out: &mut String, row: &CsvRow)
    ensures
        final(out)@ == old(out)@ + csv_line(*row),
{
    let ghost before = out@;
    push_int(out, row.timestamp);
    push_char(out, ',');
    push_escaped(out, row.event_type.as_str());
    push_char(out, ',');
    push_opt_escaped(out, &row.app_name);
    push_char(out, ',');
    push_opt_escaped(out, &row.content);
    push_char(out, ',');
    push_opt_escaped(out, &row.session_id);
    push_char(out, '\n');
    assert(out@ =~= before + csv_line(*row));
}

/// The CSV export of raw events: a header line, then one line per event
/// with its timestamp, type, application name, content and session.
pub fn events_csv(rows: &Vec<CsvRow>) -> (r: String)
    ensures
        r@ == csv_text(rows@),
{
    let mut out = "timestamp,event_type,app_name,content,session_id".to_owned();
    push_char(&mut out, '\n');
    let mut i: usize = 0;
    assert(rows@.take(0) =~= Seq::<CsvRow>::empty());
    while i < rows.len()
        invariant
            i <= rows.len(),
            out@ == csv_text(rows@.take(i as int)),
        decreases rows.len() - i,
    {
        push_csv_line(&mut out, &rows[i]);
        assert(rows@.take(i + 1).drop_last() =~= rows@.take(i as int));
        i += 1;
    }
    assert(rows@.take(rows@.len() as int) =~= rows@);
    out
}

/// The time (Unix milliseconds, as the recorders store it) before which the
/// clean-up deletes events and typing sessions, keeping `retention_days`
/// days back from `now_ms`.
pub fn cleanup_cutoff(now_ms: i64, retention_days: i32) -> (r: i64)
    requires
        i64::MIN <= now_ms - retention_days * 86_400_000 <= i64::MAX,
    ensures
        r == now_ms - retention_days * 86_400_000,
{
    now_ms - (retention_days as i64) * 86_400_000
}

/// The time (Unix seconds, as focus sessions are stored) before which the
/// clean-up deletes focus sessions, keeping `retention_days` days back from
/// `now_secs`.
pub fn focus_cleanup_cutoff(now_secs: i64, retention_days: i32) -> (r: i64)
    requires
        i64::MIN <= now_secs - retention_days * 86400 <= i64::MAX,
    ensures
        r == now_secs - retention_days * 86400,
{
    now_secs - (retention_days as i64) * 86400
}

} // verus!
