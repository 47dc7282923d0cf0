//! The query behind the event browser: filters by event type, by text and
//! by day, newest first, one page at a time.
use vstd::prelude::*;
use crate::dates::{day_number, valid_date, CivilDate};
use crate::text::{nat_text, push_char, push_nat, push_str};
use crate::todo::opt_string;
use chrono::Datelike;

verus! {

/// The filters of an event query.
#[derive(Clone, Debug)]
pub struct EventFilter {
    pub limit: i64,
    pub offset: i64,
    pub event_type: Option<String>,
    pub search: Option<String>,
    pub date: Option<String>,
}

/// A value bound to a placeholder of the query.
#[derive(Clone, Debug)]
pub enum SqlParam {
    Text(String),
    Int(i64),
}

pub enum ParamView {
    Text(Seq<char>),
    Int(i64),
}

impl View for SqlParam {
    type V = ParamView;

    open spec fn view(&self) -> ParamView {
        match self {
            SqlParam::Text(s) => ParamView::Text(s@),
            SqlParam::Int(i) => ParamView::Int(*i),
        }
    }
}

pub open spec fn param_views(v: Seq<SqlParam>) -> Seq<ParamView> {
    Seq::new(v.len(), |i: int| v[i]@)
}

/// A query and the values of its placeholders `?1`, `?2`, ...
#[derive(Clone, Debug)]
pub struct EventQuery {
    pub sql: String,
    pub params: Vec<SqlParam>,
}

/// What `NaiveDate::parse_from_str(s, "%Y-%m-%d")` gives for `s`.
pub uninterp spec fn parsed_ymd(s: Seq<char>) -> Option<CivilDate>;

/// `NaiveDate::parse_from_str(s, "%Y-%m-%d").ok()`: the date `s` names, read
/// by chrono's lenient parser; a date it gives is valid.
#[verifier::external_body]
fn parse_ymd(s: &str) -> (r: Option<CivilDate>)
    ensures
        r == parsed_ymd(s@),
        r matches Some(d) ==> valid_date(d),
{
    match chrono::NaiveDate::parse_from_str(s, "%Y-%m-%d") {
        Ok(d) => Some(CivilDate { year: d.year(), month: d.month(), day: d.day() }),
        Err(_) => None,
    }
}

/// `date.and_hms_opt(0, 0, 0).unwrap().and_utc().timestamp()`: the Unix time of
/// the start of a valid date, 86400 seconds per day from 1970-01-01.
#[verifier::external_body]
fn day_start_timestamp(d: &CivilDate) -> (r: i64)
    requires
        valid_date(*d),
    ensures
        r == day_number(*d) * 86400,
{
    chrono::NaiveDate::from_ymd_opt(d.year, d.month, d.day).unwrap().and_hms_opt(0, 0, 0).unwrap().and_utc().timestamp()
}

/// The conditions of the query, each a column test with its value, in order:
/// the event type, the search text (as a `LIKE` pattern), and the day (from
/// its first to its last millisecond, UTC, as events are stamped in
/// milliseconds).
pub open spec fn conditions(
    event_type: Option<Seq<char>>,
    search: Option<Seq<char>>,
    day: Option<CivilDate>,
) -> Seq<(Seq<char>, ParamView)> {
    (match event_type {
        Some(t) => seq![("event_type = "@, ParamView::Text(t))],
        None => seq![],
    }) + (match search {
        Some(s) => seq![("content LIKE "@, ParamView::Text(seq!['%'] + s + seq!['%']))],
        None => seq![],
    }) + (match day {
        Some(d) => seq![
            ("timestamp >= "@, ParamView::Int((day_number(d) * 86_400_000) as i64)),
            ("timestamp <= "@, ParamView::Int((day_number(d) * 86_400_000 + 86_399_999) as i64)),
        ],
        None => seq![],
    })
}

/// The `k`-th condition with its placeholder `?k+1`.
pub open spec fn condition_text(c: Seq<(Seq<char>, ParamView)>, k: int) -> Seq<char> {
    c[k].0 + seq!['?'] + nat_text((k + 1) as nat)
}

/// The first `n` conditions joined by ` AND `.
pub open spec fn joined(c: Seq<(Seq<char>, ParamView)>, n: nat) -> Seq<char>
    decreases n,
{
    if n == 0 {
        seq![]
    } else if n == 1 {
        condition_text(c, 0)
    } else {
        joined(c, (n - 1) as nat) + " AND "@ + condition_text(c, n - 1)
    }
}

/// The `WHERE` part: empty without conditions.
pub open spec fn where_sql(c: Seq<(Seq<char>, ParamView)>) -> Seq<char> {
    if c.len() == 0 {
        seq![]
    } else {
        "WHERE "@ + joined(c, c.len())
    }
}

/// The whole query for the conditions `c`.
pub open spec fn query_sql(c: Seq<(Seq<char>, ParamView)>) -> Seq<char> {
    "SELECT id, timestamp, event_type, app_bundle_id, app_name, window_title, content, session_id FROM raw_events "@
        + where_sql(c) + " ORDER BY timestamp DESC LIMIT ?"@ + nat_text(c.len() + 1) + " OFFSET ?"@
        + nat_text(c.len() + 2)
}

/// The values of the placeholders: those of the conditions, then the limit and the offset.
pub open spec fn query_params(c: Seq<(Seq<char>, ParamView)>, limit: i64, offset: i64) -> Seq<
    ParamView,
> {
    Seq::new(c.len(), |i: int| c[i].1) + seq![ParamView::Int(limit), ParamView::Int(offset)]
}

fn push_condition(
    sql: &mut String,
    params: &mut Vec<SqlParam>,
    test: &str,
    value: SqlParam,
    ghost_c: Ghost<Seq<(Seq<char>, ParamView)>>,
)
    requires
        old(params)@.len() < ghost_c@.len() <= 4,
        ghost_c@[old(params)@.len() as int] == (test@, value@),
        old(params)@.len() == 0 ==> old(sql)@ == "WHERE "@,
        old(params)@.len() > 0 ==> old(sql)@ == "WHERE "@ + joined(ghost_c@, old(params)@.len() as nat),
        forall|i: int| 0 <= i < old(params)@.len() ==> old(params)@[i]@ == ghost_c@[i].1,
    ensures
        final(sql)@ == "WHERE "@ + joined(ghost_c@, final(params)@.len() as nat),
        final(params)@.len() == old(params)@.len() + 1,
        forall|i: int| 0 <= i < final(params)@.len() ==> final(params)@[i]@ == ghost_c@[i].1,
{
    let k = params.len();
    if k > 0 {
        push_str(sql, " AND ");
    }
    push_str(sql, test);
    push_char(sql, '?');
    push_nat(sql, (k + 1) as u64);
    params.push(value);
    proof {
        let c = ghost_c@;
        if k == 0 {
            assert(sql@ =~= "WHERE "@ + joined(c, 1));
        } else {
            assert(sql@ =~= "WHERE "@ + joined(c, (k + 1) as nat));
        }
    }
}

/// Builds the event query when the day filter reads as the date `day`.
pub fn build_event_query_for_day(filter: &EventFilter, day: Option<CivilDate>) -> (r: EventQuery)
    requires
        day matches Some(d) ==> valid_date(d) && i64::MIN <= day_number(d) * 86_400_000 && day_number(
            d,
        ) * 86_400_000 + 86_399_999 <= i64::MAX,
    ensures
        ({
            let c = conditions(opt_string(filter.event_type), opt_string(filter.search), day);
            r.sql@ == query_sql(c) && param_views(r.params@) == query_params(
                c,
                filter.limit,
                filter.offset,
            )
        }),
{
    let ghost c = conditions(opt_string(filter.event_type), opt_string(filter.search), day);
    let mut clauses = "WHERE ".to_owned();
    let mut params: Vec<SqlParam> = Vec::new();
    if let Some(t) = &filter.event_type {
        push_condition(&mut clauses, &mut params, "event_type = ", SqlParam::Text(t.clone()), Ghost(c));
    }
    if let Some(s) = &filter.search {
        let mut pattern = String::new();
        push_char(&mut pattern, '%');
        push_str(&mut pattern, s.as_str());
        push_char(&mut pattern, '%');
        assert(pattern@ =~= seq!['%'] + s@ + seq!['%']);
        push_condition(&mut clauses, &mut params, "content LIKE ", SqlParam::Text(pattern), Ghost(c));
    }
    if let Some(d) = day {
        let start = day_start_timestamp(&d) * 1000;
        let end = start + 86_399_999;
        push_condition(&mut clauses, &mut params, "timestamp >= ", SqlParam::Int(start), Ghost(c));
        push_condition(&mut clauses, &mut params, "timestamp <= ", SqlParam::Int(end), Ghost(c));
    }
    assert(params@.len() == c.len());
    let n = params.len();
    let mut sql = "SELECT id, timestamp, event_type, app_bundle_id, app_name, window_title, content, session_id FROM raw_events ".to_owned();
    if n > 0 {
        push_str(&mut sql, clauses.as_str());
    }
    push_str(&mut sql, " ORDER BY timestamp DESC LIMIT ?");
    push_nat(&mut sql, (n + 1) as u64);
    push_str(&mut sql, " OFFSET ?");
    push_nat(&mut sql, (n + 2) as u64);
    let ghost pv = params@;
    params.push(SqlParam::Int(filter.limit));
    params.push(SqlParam::Int(filter.offset));
    assert(sql@ =~= query_sql(c));
    assert(param_views(params@) =~= query_params(c, filter.limit, filter.offset));
    EventQuery { sql, params }
}

/// Builds the event query of `filter`: the day filter counts when chrono
/// reads it as a `%Y-%m-%d` date, and is left out otherwise.
pub fn build_event_query(filter: &EventFilter) -> (r: EventQuery)
    ensures
        ({
            let day = match filter.date {
                Some(s) => parsed_ymd(s@),
                None => None,
            };
            let c = conditions(opt_string(filter.event_type), opt_string(filter.search), day);
            r.sql@ == query_sql(c) && param_views(r.params@) == query_params(
                c,
                filter.limit,
                filter.offset,
            )
        }),
{
    let day = match &filter.date {
        Some(s) => parse_ymd(s.as_str()),
        None => None,
    };
    proof {
        if let Some(d) = day {
            crate::dates::lemma_day_number_bounds(d);
        }
    }
    build_event_query_for_day(filter, day)
}

} // verus!
