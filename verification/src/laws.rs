//! Properties that hold across the operations of the library.
use vstd::prelude::*;
use crate::analysis::{
    analysis_text_of, analysis_window, chat_url, provider_of, request_model, request_url, route_is,
    trim_slashes, AnalysisEvent, AnalysisRoute, LlmRequest, Provider, TRUNCATION_NOTE,
};
use crate::config::setting_or;
use crate::todo::opt_string;
use crate::config::{apply_rows, cache_view, config_after_set, default_config, ConfigStore};
use crate::dates::{date_before, valid_date, valid_ymd, weekday_index, CivilDate};
use crate::due::{
    due_plan, next_week_at, next_week_offset, this_week_at, upcoming, weekday_after, DuePlan,
};
use crate::input::{key_on_session, SessionView};
use crate::focus::{before_char, domain_of, first_index_of, focus_step, to_store, FocusSessionView, TargetView};
use crate::scheduler::{
    after_tick, cleanup_due, daily_due, due_tasks, hourly_due, weekly_due, HourStamp, LocalTime,
    SchedulerState,
};
use crate::text::{
    utf8_width, contains, occurs_at, starts_with,
    is_white_space, lemma_utf8_len_concat, lemma_ws_prefix_len_bound, lemma_ws_suffix_len_bound, trim,
    utf8_len, ws_prefix_len, ws_suffix_len,
};
use crate::todo::{
    action_words, alts_rest, colon_rest, collect_todos, marker_words, need_words, plan_words,
    reminder_words, remember_words, rest_capture, session_todos, split_lines, time_verb_rest,
    time_verb_words, time_words, todo_capture, todo_of,
};

verus! {

// ---------------------------------------------------------------------------
// Settings
// ---------------------------------------------------------------------------

/// A setting reads back as the value last written to it; when the cache was
/// loaded, every other setting keeps its value.
pub proof fn law_config_read_after_write(
    before: Option<ConfigStore>,
    key: Seq<char>,
    value: Seq<char>,
    other: Seq<char>,
)
    ensures
        config_after_set(before, key, value).contains_key(key),
        config_after_set(before, key, value)[key] == value,
        before is Some && other != key ==> (config_after_set(before, key, value).contains_key(other)
            <==> cache_view(before).contains_key(other)),
        before is Some && other != key && cache_view(before).contains_key(other) ==> config_after_set(
            before,
            key,
            value,
        )[other] == cache_view(before)[other],
{
}

/// Loading stored settings of which none has a value gives the built-in
/// settings, the same ones that are read before any load.
pub proof fn law_config_defaults_without_stored_values(rows: Seq<(Seq<char>, Option<Seq<char>>)>)
    requires
        forall|i: int| 0 <= i < rows.len() ==> (#[trigger] rows[i]).1 is None,
    ensures
        apply_rows(default_config(), rows) == default_config(),
        apply_rows(default_config(), rows) == cache_view(None),
    decreases rows.len(),
{
    if rows.len() > 0 {
        law_config_defaults_without_stored_values(rows.drop_last());
        assert(rows.last() == rows[rows.len() - 1]);
    }
}

/// After a restart, a setting that was stored comes back as its stored value:
/// loading rows in which the last row with `key` holds `value` gives `value`
/// for `key`; a setting that no row gives a value keeps its built-in value.
pub proof fn law_config_stored_value_survives_restart(
    rows: Seq<(Seq<char>, Option<Seq<char>>)>,
    key: Seq<char>,
)
    ensures
        forall|k: int|
            0 <= k < rows.len() && (#[trigger] rows[k]).0 == key && rows[k].1 is Some && (forall|
                j: int,
            | k < j < rows.len() ==> (#[trigger] rows[j]).0 != key) ==> apply_rows(
                default_config(),
                rows,
            ).contains_key(key) && apply_rows(default_config(), rows)[key] == rows[k].1->0,
        (forall|j: int| 0 <= j < rows.len() && (#[trigger] rows[j]).0 == key ==> rows[j].1 is None)
            ==> (apply_rows(default_config(), rows).contains_key(key) <==> default_config().contains_key(
            key,
        )) && (default_config().contains_key(key) ==> apply_rows(default_config(), rows)[key]
            == default_config()[key]),
    decreases rows.len(),
{
    if rows.len() > 0 {
        let d = rows.drop_last();
        law_config_stored_value_survives_restart(d, key);
        assert forall|k: int|
            0 <= k < rows.len() && (#[trigger] rows[k]).0 == key && rows[k].1 is Some && (forall|
                j: int,
            | k < j < rows.len() ==> (#[trigger] rows[j]).0 != key) implies apply_rows(
            default_config(),
            rows,
        ).contains_key(key) && apply_rows(default_config(), rows)[key] == rows[k].1->0 by {
            if k < rows.len() - 1 {
                assert(d[k] == rows[k]);
                assert(rows[rows.len() - 1] == rows.last());
                assert forall|j: int| k < j < d.len() implies (#[trigger] d[j]).0 != key by {
                    assert(d[j] == rows[j]);
                }
            }
        }
        if forall|j: int| 0 <= j < rows.len() && (#[trigger] rows[j]).0 == key ==> rows[j].1 is None {
            assert forall|j: int| 0 <= j < d.len() && (#[trigger] d[j]).0 == key implies d[j].1 is None by {
                assert(d[j] == rows[j]);
            }
            assert(rows[rows.len() - 1] == rows.last());
        }
    }
}

// ---------------------------------------------------------------------------
// Scheduling
// ---------------------------------------------------------------------------

/// A second wake-up at the same minute runs nothing and changes nothing.
pub proof fn law_scheduler_tick_is_idempotent(s: SchedulerState, t: LocalTime)
    ensures
        due_tasks(after_tick(s, t), t) == Seq::<crate::scheduler::TaskView>::empty(),
        after_tick(after_tick(s, t), t) == after_tick(s, t),
{
    assert(due_tasks(after_tick(s, t), t) =~= Seq::<crate::scheduler::TaskView>::empty());
}

/// Each task runs at most once in its period: once it ran at `t`, no wake-up
/// `u` in the same period (the same day; for the hourly task the same hour)
/// finds it due, and the record of its run is kept.
pub proof fn law_tasks_run_once_per_period(s: SchedulerState, t: LocalTime, u: LocalTime)
    ensures
        daily_due(s, t) && u.date == t.date ==> !daily_due(after_tick(s, t), u) && after_tick(
            after_tick(s, t),
            u,
        ).last_daily == Some(t.date),
        weekly_due(s, t) && u.date == t.date ==> !weekly_due(after_tick(s, t), u) && after_tick(
            after_tick(s, t),
            u,
        ).last_weekly == Some(t.date),
        hourly_due(s, t) && u.date == t.date && u.hour == t.hour ==> !hourly_due(after_tick(s, t), u)
            && after_tick(after_tick(s, t), u).last_hourly == after_tick(s, t).last_hourly,
        cleanup_due(s, t) && u.date == t.date ==> !cleanup_due(after_tick(s, t), u) && after_tick(
            after_tick(s, t),
            u,
        ).last_cleanup == Some(t.date),
{
}

/// The scheduler's state after waking at each of `ts` in turn.
pub open spec fn run_ticks(s: SchedulerState, ts: Seq<LocalTime>) -> SchedulerState
    decreases ts.len(),
{
    if ts.len() == 0 {
        s
    } else {
        after_tick(run_ticks(s, ts.drop_last()), ts.last())
    }
}

/// Whether `a` lies in an earlier hour than `b`.
pub open spec fn hour_before(a: LocalTime, b: LocalTime) -> bool {
    date_before(a.date, b.date) || (a.date == b.date && a.hour < b.hour)
}

/// Wake-ups that never go back to an earlier hour.
pub open spec fn in_time_order(ts: Seq<LocalTime>) -> bool {
    forall|a: int, b: int| 0 <= a < b < ts.len() ==> !hour_before(#[trigger] ts[b], #[trigger] ts[a])
}

proof fn lemma_run_step(s: SchedulerState, ts: Seq<LocalTime>, k: int)
    requires
        0 <= k < ts.len(),
    ensures
        run_ticks(s, ts.take(k + 1)) == after_tick(run_ticks(s, ts.take(k)), ts[k]),
{
    assert(ts.take(k + 1).drop_last() =~= ts.take(k));
}

proof fn lemma_same_day_between(ts: Seq<LocalTime>, i: int, j: int, m: int)
    requires
        in_time_order(ts),
        0 <= i <= m <= j < ts.len(),
        ts[i].date == ts[j].date,
    ensures
        ts[m].date == ts[i].date,
        ts[i].hour == ts[j].hour ==> ts[m].hour == ts[i].hour,
{
    if i < m {
        assert(!hour_before(ts[m], ts[i]));
    }
    if m < j {
        assert(!hour_before(ts[j], ts[m]));
    }
}

proof fn lemma_runs_recorded(s: SchedulerState, ts: Seq<LocalTime>, i: int, k: int)
    requires
        in_time_order(ts),
        0 <= i < k <= ts.len(),
        ts[i].date == ts[k - 1].date,
    ensures
        daily_due(run_ticks(s, ts.take(i)), ts[i]) ==> run_ticks(s, ts.take(k)).last_daily == Some(
            ts[i].date,
        ),
        weekly_due(run_ticks(s, ts.take(i)), ts[i]) ==> run_ticks(s, ts.take(k)).last_weekly == Some(
            ts[i].date,
        ),
        cleanup_due(run_ticks(s, ts.take(i)), ts[i]) ==> run_ticks(s, ts.take(k)).last_cleanup
            == Some(ts[i].date),
        ts[i].hour == ts[k - 1].hour && hourly_due(run_ticks(s, ts.take(i)), ts[i]) ==> run_ticks(
            s,
            ts.take(k),
        ).last_hourly == Some(HourStamp { date: ts[i].date, hour: ts[i].hour }),
    decreases k - i,
{
    lemma_run_step(s, ts, k - 1);
    if k > i + 1 {
        lemma_same_day_between(ts, i, k - 1, k - 2);
        lemma_runs_recorded(s, ts, i, k - 1);
        lemma_same_day_between(ts, i, k - 1, k - 1);
    }
}

/// Over any run of wake-ups that never goes back in time, each task runs at
/// most once in its period: no two wake-ups on one day both run the daily
/// analyses, the weekly review or the clean-up, and no two in one hour both
/// run the to-do analysis.
pub proof fn law_tasks_run_once_per_period_over_ticks(
    s: SchedulerState,
    ts: Seq<LocalTime>,
    i: int,
    j: int,
)
    requires
        in_time_order(ts),
        0 <= i < j < ts.len(),
        ts[i].date == ts[j].date,
    ensures
        !(daily_due(run_ticks(s, ts.take(i)), ts[i]) && daily_due(run_ticks(s, ts.take(j)), ts[j])),
        !(weekly_due(run_ticks(s, ts.take(i)), ts[i]) && weekly_due(run_ticks(s, ts.take(j)), ts[j])),
        !(cleanup_due(run_ticks(s, ts.take(i)), ts[i]) && cleanup_due(run_ticks(s, ts.take(j)), ts[j])),
        ts[i].hour == ts[j].hour ==> !(hourly_due(run_ticks(s, ts.take(i)), ts[i]) && hourly_due(
            run_ticks(s, ts.take(j)),
            ts[j],
        )),
{
    lemma_same_day_between(ts, i, j, j - 1);
    lemma_runs_recorded(s, ts, i, j);
}

/// On a Sunday at 03:30 the weekly review runs, and nothing else, whenever it
/// has not run that day, whatever the other tasks did earlier (the daily
/// analyses at 03:00 included); its run is recorded for that day.
pub proof fn law_weekly_review_runs_on_sunday(s: SchedulerState, t: LocalTime)
    requires
        t.weekday == 6,
        t.hour == 3,
        t.minute == 30,
        s.last_weekly != Some(t.date),
    ensures
        due_tasks(s, t) == seq![crate::scheduler::TaskView::Analysis("weekly"@)],
        after_tick(s, t).last_weekly == Some(t.date),
        after_tick(s, t).last_daily == s.last_daily,
{
    assert(due_tasks(s, t) =~= seq![crate::scheduler::TaskView::Analysis("weekly"@)]);
}

/// A Sunday's 03:00 analyses do not keep the weekly review of 03:30 from
/// running: after both wake-ups the review has run that day.
pub proof fn law_weekly_review_follows_daily_analyses(s: SchedulerState, t: LocalTime, u: LocalTime)
    requires
        t.weekday == 6,
        t.hour == 3,
        t.minute == 0,
        u.date == t.date,
        u.weekday == 6,
        u.hour == 3,
        u.minute == 30,
        s.last_weekly != Some(t.date),
    ensures
        due_tasks(after_tick(s, t), u) == seq![crate::scheduler::TaskView::Analysis("weekly"@)],
        after_tick(after_tick(s, t), u).last_weekly == Some(t.date),
{
    law_weekly_review_runs_on_sunday(after_tick(s, t), u);
}

/// At 03:00 the daily analyses run, first and in the order productivity,
/// topic, writing, whenever they have not run that day, whatever the other
/// tasks did.
pub proof fn law_daily_analyses_run_at_three(s: SchedulerState, t: LocalTime)
    requires
        t.hour == 3,
        t.minute == 0,
        s.last_daily != Some(t.date),
    ensures
        due_tasks(s, t).len() >= 3,
        due_tasks(s, t).take(3) == seq![
            crate::scheduler::TaskView::Analysis("productivity"@),
            crate::scheduler::TaskView::Analysis("topic"@),
            crate::scheduler::TaskView::Analysis("writing"@),
        ],
        after_tick(s, t).last_daily == Some(t.date),
{
    assert(due_tasks(s, t).take(3) =~= seq![
        crate::scheduler::TaskView::Analysis("productivity"@),
        crate::scheduler::TaskView::Analysis("topic"@),
        crate::scheduler::TaskView::Analysis("writing"@),
    ]);
}

/// At 00:05 the clean-up runs, and nothing else, whenever it has not run that
/// day, whatever the other tasks did.
pub proof fn law_cleanup_runs_after_midnight(s: SchedulerState, t: LocalTime)
    requires
        t.hour == 0,
        t.minute == 5,
        s.last_cleanup != Some(t.date),
    ensures
        due_tasks(s, t) == seq![crate::scheduler::TaskView::Cleanup],
        after_tick(s, t).last_cleanup == Some(t.date),
{
    assert(due_tasks(s, t) =~= seq![crate::scheduler::TaskView::Cleanup]);
}

/// On the hour the to-do analysis runs, last of the tasks due then, whenever
/// it has not run in that hour; its run is recorded for that hour.
pub proof fn law_todo_analysis_runs_on_the_hour(s: SchedulerState, t: LocalTime)
    requires
        t.minute == 0,
        s.last_hourly != Some(HourStamp { date: t.date, hour: t.hour }),
    ensures
        due_tasks(s, t).len() > 0,
        due_tasks(s, t).last() == crate::scheduler::TaskView::Analysis("todo"@),
        after_tick(s, t).last_hourly == Some(HourStamp { date: t.date, hour: t.hour }),
{
}

/// Outside minutes 0, 5 and 30 nothing runs and nothing is recorded; at
/// minute 5 only the clean-up can run, and only at 00:05; at minute 30 only
/// the weekly review can run, and only on Sundays at 03:30.
pub proof fn law_scheduler_quiet_minutes(s: SchedulerState, t: LocalTime)
    ensures
        t.minute != 0 && t.minute != 5 && t.minute != 30 ==> due_tasks(s, t).len() == 0 && after_tick(
            s,
            t,
        ) == s,
        t.minute == 5 && !(t.hour == 0) ==> due_tasks(s, t).len() == 0,
        t.minute == 30 && !(t.weekday == 6 && t.hour == 3) ==> due_tasks(s, t).len() == 0,
        t.minute == 0 && t.hour != 3 && s.last_hourly == Some(HourStamp { date: t.date, hour: t.hour })
            ==> due_tasks(s, t).len() == 0,
{
}

// ---------------------------------------------------------------------------
// Typing sessions
// ---------------------------------------------------------------------------

/// A backspace right after a one-character key takes that character back out
/// of the session's text; both keys count as keystrokes.
pub proof fn law_backspace_undoes_key(s: SessionView, c: char)
    requires
        s.total_keystrokes + 2 <= i32::MAX,
        s.backspace_count + 1 <= i32::MAX,
    ensures
        key_on_session(key_on_session(s, Some(seq![c]), false, false), None, true, false).buffer == s.buffer,
        key_on_session(key_on_session(s, Some(seq![c]), false, false), None, true, false).total_keystrokes
            == s.total_keystrokes + 2,
{
    assert((s.buffer + seq![c]).drop_last() =~= s.buffer);
}

// ---------------------------------------------------------------------------
// To-do items
// ---------------------------------------------------------------------------

proof fn lemma_trim_parts(s: Seq<char>)
    ensures
        trim(s).len() > 0 ==> !is_white_space(trim(s)[0]) && !is_white_space(trim(s).last()),
{
    let p = ws_prefix_len(s);
    lemma_ws_prefix_len_bound(s);
    let rest = s.skip(p as int);
    let q = ws_suffix_len(rest);
    lemma_ws_suffix_len_bound(rest);
    let t = trim(s);
    if t.len() > 0 {
        assert(t[0] == rest[0]);
        assert(rest[0] == s[p as int]);
        assert(t.last() == rest[rest.len() - q - 1]);
    }
}

/// Trimming twice is trimming once.
pub proof fn lemma_trim_idempotent(s: Seq<char>)
    ensures
        trim(trim(s)) == trim(s),
{
    let t = trim(s);
    lemma_trim_parts(s);
    if t.len() > 0 {
        assert(ws_prefix_len(t) == 0);
        assert(t.skip(0) =~= t);
        assert(ws_suffix_len(t) == 0);
        assert(t.take(t.len() as int) =~= t);
    } else {
        assert(trim(t) =~= t);
    }
}

/// A to-do item comes without surrounding whitespace.
pub proof fn law_todo_is_trimmed(text: Seq<char>)
    ensures
        todo_of(text) matches Some(x) ==> trim(x) == x,
{
    let t = trim(text);
    lemma_trim_idempotent(text);
    if let Some(x) = crate::todo::todo_capture(t) {
        lemma_trim_idempotent(x);
    }
}

/// Whitespace around a line does not change the to-do item read from it.
pub proof fn law_todo_ignores_surrounding_whitespace(text: Seq<char>)
    ensures
        todo_of(trim(text)) == todo_of(text),
{
    lemma_trim_idempotent(text);
}

proof fn lemma_collect_todos(lines: Seq<Seq<char>>)
    ensures
        forall|i: int, j: int|
            0 <= i < j < collect_todos(lines).len() ==> collect_todos(lines)[i] != collect_todos(
                lines,
            )[j],
        forall|i: int|
            0 <= i < collect_todos(lines).len() ==> exists|k: int|
                0 <= k < lines.len() && todo_of(#[trigger] lines[k]) == Some(
                    #[trigger] collect_todos(lines)[i],
                ),
    decreases lines.len(),
{
    if lines.len() > 0 {
        let prev = collect_todos(lines.drop_last());
        lemma_collect_todos(lines.drop_last());
        let c = collect_todos(lines);
        assert forall|i: int| 0 <= i < c.len() implies exists|k: int|
            0 <= k < lines.len() && todo_of(#[trigger] lines[k]) == Some(#[trigger] c[i]) by {
            if i < prev.len() {
                let k = choose|k: int|
                    0 <= k < lines.drop_last().len() && todo_of(#[trigger] lines.drop_last()[k])
                        == Some(prev[i]);
                assert(lines.drop_last()[k] == lines[k]);
            } else {
                assert(lines[lines.len() - 1] == lines.last());
            }
        }
        assert forall|i: int, j: int| 0 <= i < j < c.len() implies c[i] != c[j] by {
            if j >= prev.len() {
                assert(prev[i] == c[i]);
                assert(prev.contains(prev[i]));
            }
        }
    }
}

/// Whether a line before line `k` of `lines` has the to-do item `item`.
pub open spec fn seen_before(lines: Seq<Seq<char>>, item: Seq<char>, k: int) -> bool {
    exists|k1: int| 0 <= k1 < k && todo_of(#[trigger] lines[k1]) == Some(item)
}

#[verifier::spinoff_prover]
#[verifier::rlimit(40)]
proof fn lemma_collect_todos_order(lines: Seq<Seq<char>>)
    ensures
        forall|k: int|
            0 <= k < lines.len() && todo_of(#[trigger] lines[k]) is Some ==> collect_todos(
                lines,
            ).contains(todo_of(lines[k])->0),
        forall|i: int, j: int, k: int|
            #![trigger collect_todos(lines)[i], collect_todos(lines)[j], lines[k]]
            0 <= i < j < collect_todos(lines).len() && 0 <= k < lines.len() && todo_of(lines[k])
                == Some(collect_todos(lines)[j]) ==> seen_before(lines, collect_todos(lines)[i], k),
    decreases lines.len(),
{
    if lines.len() > 0 {
        let n = lines.len();
        let d = lines.drop_last();
        let prev = collect_todos(d);
        let c = collect_todos(lines);
        lemma_collect_todos(d);
        lemma_collect_todos_order(d);
        assert(prev.len() <= c.len());
        assert forall|i: int| 0 <= i < prev.len() implies c[i] == prev[i] by {}
        assert forall|k: int|
            0 <= k < n && todo_of(#[trigger] lines[k]) is Some implies c.contains(
                todo_of(lines[k])->0,
            ) by {
            let x = todo_of(lines[k])->0;
            if k < n - 1 {
                assert(d[k] == lines[k]);
                assert(prev.contains(x));
                let t = choose|t: int| 0 <= t < prev.len() && prev[t] == x;
                assert(c[t] == x);
            } else {
                assert(lines.last() == lines[k]);
                if prev.contains(x) {
                    let t = choose|t: int| 0 <= t < prev.len() && prev[t] == x;
                    assert(c[t] == x);
                } else {
                    assert(c[prev.len() as int] == x);
                }
            }
        }
        assert forall|i: int, j: int, k: int|
            0 <= i < j < c.len() && 0 <= k < n && todo_of(#[trigger] lines[k]) == Some(
                #[trigger] c[j],
            ) implies seen_before(lines, #[trigger] c[i], k) by {
            assert(c[i] == prev[i]);
            let k0 = choose|k0: int|
                0 <= k0 < d.len() && todo_of(#[trigger] d[k0]) == Some(#[trigger] prev[i]);
            assert(d[k0] == lines[k0]);
            if k < n - 1 {
                assert(d[k] == lines[k]);
                if j < prev.len() {
                    assert(c[j] == prev[j]);
                    assert(seen_before(d, prev[i], k));
                    let k1 = choose|k1: int| 0 <= k1 < k && todo_of(#[trigger] d[k1]) == Some(prev[i]);
                    assert(d[k1] == lines[k1]);
                } else {
                    assert(prev.contains(c[j]));
                    let t = choose|t: int| 0 <= t < prev.len() && prev[t] == c[j];
                    assert(false);
                }
            } else {
                assert(k0 < k);
            }
        }
    }
}

/// Every line's to-do item is among the items of the session, and the items
/// come in the order of their first lines: whichever line has a later item,
/// an earlier line has each item before it.
pub proof fn law_session_todos_complete_in_order(text: Seq<char>)
    ensures
        forall|k: int|
            0 <= k < split_lines(text).len() && todo_of(#[trigger] split_lines(text)[k]) is Some
                ==> session_todos(text).contains(todo_of(split_lines(text)[k])->0),
        forall|i: int, j: int, k: int|
            #![trigger session_todos(text)[i], session_todos(text)[j], split_lines(text)[k]]
            0 <= i < j < session_todos(text).len() && 0 <= k < split_lines(text).len() && todo_of(
                split_lines(text)[k],
            ) == Some(session_todos(text)[j]) ==> seen_before(
                split_lines(text),
                session_todos(text)[i],
                k,
            ),
{
    lemma_collect_todos_order(split_lines(text));
}

/// The time words that may open a to-do sentence: this week (这周, 本周),
/// next week, this month, next month, today, tomorrow, the day after.
pub open spec fn todo_time_openers() -> Seq<Seq<char>> {
    seq![
        seq!['这', '周'],
        seq!['本', '周'],
        seq!['下', '周'],
        seq!['这', '月'],
        seq!['下', '月'],
        seq!['今', '天'],
        seq!['明', '天'],
        seq!['后', '天'],
    ]
}

/// The verbs that may follow such a time word: 要, 需要, 得, 去, 做.
pub open spec fn todo_time_actions() -> Seq<Seq<char>> {
    seq![seq!['要'], seq!['需', '要'], seq!['得'], seq!['去'], seq!['做']]
}

/// Every word of `words` is non-empty and starts with another character than `c`.
pub open spec fn heads_avoid(words: Seq<Seq<char>>, c: char) -> bool
    decreases words.len(),
{
    if words.len() == 0 {
        true
    } else {
        words[0].len() > 0 && words[0][0] != c && heads_avoid(words.drop_first(), c)
    }
}

/// Every word of `words` has two characters and is not `a` followed by `b`.
pub open spec fn pairs_avoid(words: Seq<Seq<char>>, a: char, b: char) -> bool
    decreases words.len(),
{
    if words.len() == 0 {
        true
    } else {
        words[0].len() == 2 && (words[0][0] != a || words[0][1] != b) && pairs_avoid(
            words.drop_first(),
            a,
            b,
        )
    }
}

proof fn lemma_not_prefix(t: Seq<char>, w: Seq<char>)
    requires
        t.len() > 0,
        w.len() > 0,
        w[0] != t[0],
    ensures
        !starts_with(t, w),
{
    if starts_with(t, w) {
        assert(t.take(w.len() as int)[0] == t[0]);
    }
}

proof fn lemma_heads_avoid(t: Seq<char>, words: Seq<Seq<char>>)
    requires
        t.len() > 0,
        heads_avoid(words, t[0]),
    ensures
        alts_rest(t, words) is None,
        colon_rest(t, words) is None,
        forall|k: int| 0 <= k < words.len() ==> !starts_with(t, #[trigger] words[k]),
    decreases words.len(),
{
    if words.len() > 0 {
        lemma_not_prefix(t, words[0]);
        lemma_heads_avoid(t, words.drop_first());
        assert forall|k: int| 0 <= k < words.len() implies !starts_with(t, #[trigger] words[k]) by {
            if k > 0 {
                assert(words[k] == words.drop_first()[k - 1]);
            }
        }
    }
}

proof fn lemma_pairs_avoid(t: Seq<char>, words: Seq<Seq<char>>)
    requires
        t.len() >= 2,
        pairs_avoid(words, t[0], t[1]),
    ensures
        forall|k: int| 0 <= k < words.len() ==> !starts_with(t, #[trigger] words[k]),
    decreases words.len(),
{
    if words.len() > 0 {
        lemma_pairs_avoid(t, words.drop_first());
        assert forall|k: int| 0 <= k < words.len() implies !starts_with(t, #[trigger] words[k]) by {
            if k > 0 {
                assert(words[k] == words.drop_first()[k - 1]);
            } else if starts_with(t, words[0]) {
                assert(t.take(2)[0] == t[0]);
                assert(t.take(2)[1] == t[1]);
            }
        }
    }
}

proof fn lemma_alts_at(t: Seq<char>, words: Seq<Seq<char>>, j: int)
    requires
        0 <= j < words.len(),
        starts_with(t, words[j]),
        rest_capture(t.skip(words[j].len() as int)) is Some,
        forall|k: int| 0 <= k < j ==> !starts_with(t, #[trigger] words[k]),
    ensures
        alts_rest(t, words) == rest_capture(t.skip(words[j].len() as int)),
    decreases j,
{
    if j > 0 {
        assert(!starts_with(t, words[0]));
        let d = words.drop_first();
        assert(d[j - 1] == words[j]);
        assert forall|k: int| 0 <= k < j - 1 implies !starts_with(t, #[trigger] d[k]) by {
            assert(d[k] == words[k + 1]);
        }
        lemma_alts_at(t, d, j - 1);
    }
}

proof fn lemma_time_verb_at(t: Seq<char>, times: Seq<Seq<char>>, verbs: Seq<Seq<char>>, i: int)
    requires
        0 <= i < times.len(),
        starts_with(t, times[i]),
        ({
            let r = t.skip(times[i].len() as int);
            alts_rest(r.skip(ws_prefix_len(r) as int), verbs) is Some
        }),
        forall|k: int| 0 <= k < i ==> !starts_with(t, #[trigger] times[k]),
    ensures
        ({
            let r = t.skip(times[i].len() as int);
            time_verb_rest(t, times, verbs) == alts_rest(r.skip(ws_prefix_len(r) as int), verbs)
        }),
    decreases i,
{
    if i > 0 {
        assert(!starts_with(t, times[0]));
        let d = times.drop_first();
        assert(d[i - 1] == times[i]);
        assert forall|k: int| 0 <= k < i - 1 implies !starts_with(t, #[trigger] d[k]) by {
            assert(d[k] == times[k + 1]);
        }
        lemma_time_verb_at(t, d, verbs, i - 1);
    }
}

proof fn lemma_plain_tail(x: Seq<char>)
    requires
        x.len() > 0,
        !x.contains('\n'),
        !is_white_space(x[0]),
        !is_white_space(x.last()),
    ensures
        rest_capture(x) == Some(x),
        trim(x) == x,
{
    assert(ws_prefix_len(x) == 0);
    assert(ws_suffix_len(x) == 0);
    assert(x.skip(0) =~= x);
    assert(x.take(x.len() as int) =~= x);
}

proof fn lemma_time_action(j: int, x: Seq<char>)
    requires
        0 <= j < 5,
        x.len() > 0,
        !x.contains('\n'),
        !is_white_space(x[0]),
        !is_white_space(x.last()),
    ensures
        alts_rest(todo_time_actions()[j] + x, time_verb_words()) == Some(x),
{
    let v = todo_time_actions()[j];
    let s = v + x;
    lemma_plain_tail(x);
    assert(v == time_verb_words()[j]);
    assert(s.take(v.len() as int) =~= v);
    assert(s.skip(v.len() as int) =~= x);
    assert(s[0] == v[0]);
    reveal_with_fuel(heads_avoid, 6);
    assert(heads_avoid(time_verb_words().take(j), s[0])) by {
        if j == 1 {
            assert(time_verb_words().take(1).drop_first() =~= seq![]);
        } else if j == 2 {
            assert(time_verb_words().take(2).drop_first().drop_first() =~= seq![]);
        } else if j == 3 {
            assert(time_verb_words().take(3).drop_first().drop_first().drop_first() =~= seq![]);
        } else if j == 4 {
            assert(time_verb_words().take(4).drop_first().drop_first().drop_first().drop_first()
                =~= seq![]);
        }
    }
    lemma_heads_avoid(s, time_verb_words().take(j));
    assert forall|k: int| 0 <= k < j implies !starts_with(s, #[trigger] time_verb_words()[k]) by {
        assert(time_verb_words().take(j)[k] == time_verb_words()[k]);
    }
    lemma_alts_at(s, time_verb_words(), j);
}

/// A line that opens with a time word (这周, 本周, 下周, 这月, 下月, 今天,
/// 明天 or 后天) followed by 要, 需要, 得, 去 or 做 names as its to-do item
/// what follows: `后天去开会` gives `开会`. This holds for every tail without
/// line breaks or surrounding whitespace, within the length limit of a line.
pub proof fn law_time_word_todo(i: int, j: int, x: Seq<char>)
    requires
        0 <= i < 8,
        0 <= j < 5,
        x.len() > 0,
        !x.contains('\n'),
        !is_white_space(x[0]),
        !is_white_space(x.last()),
        utf8_len(todo_time_openers()[i] + todo_time_actions()[j] + x) <= 200,
    ensures
        todo_of(todo_time_openers()[i] + todo_time_actions()[j] + x) == Some(x),
{
    let w = todo_time_openers()[i];
    let v = todo_time_actions()[j];
    let t = w + v + x;
    lemma_time_todo_shape(i, j, x);
    assert(trim(t) == t);
    lemma_time_todo_capture(i, j, x);
    lemma_plain_tail(x);
}

proof fn lemma_time_todo_shape(i: int, j: int, x: Seq<char>)
    requires
        0 <= i < 8,
        0 <= j < 5,
        x.len() > 0,
        !is_white_space(x.last()),
    ensures
        ({
            let t = todo_time_openers()[i] + todo_time_actions()[j] + x;
            &&& trim(t) == t
            &&& utf8_len(t) >= 3
            &&& t.len() >= 3
            &&& t[0] == todo_time_openers()[i][0]
            &&& t[1] == todo_time_openers()[i][1]
        }),
{
    let w = todo_time_openers()[i];
    let v = todo_time_actions()[j];
    let t = w + v + x;
    assert(w.len() == 2);
    assert(!is_white_space(w[0]));
    assert(t[0] == w[0]);
    assert(t[1] == w[1]);
    assert(t.last() == x.last());
    assert(ws_prefix_len(t) == 0);
    assert(ws_suffix_len(t) == 0);
    assert(t.skip(0) =~= t);
    assert(t.take(t.len() as int) =~= t);
    assert(t =~= w + (v + x));
    lemma_utf8_len_concat(w, v + x);
    assert(utf8_len(w) >= 3) by {
        reveal_with_fuel(utf8_len, 3);
        assert(w.drop_last().drop_last() =~= seq![]);
    }
}

#[verifier::spinoff_prover]
#[verifier::rlimit(60)]
proof fn lemma_time_todo_capture(i: int, j: int, x: Seq<char>)
    requires
        0 <= i < 8,
        0 <= j < 5,
        x.len() > 0,
        !x.contains('\n'),
        !is_white_space(x[0]),
        !is_white_space(x.last()),
    ensures
        todo_capture(todo_time_openers()[i] + todo_time_actions()[j] + x) == Some(x),
{
    let w = todo_time_openers()[i];
    let v = todo_time_actions()[j];
    let t = w + v + x;
    lemma_time_todo_shape(i, j, x);
    let c = t[0];
    assert(c == '这' || c == '本' || c == '下' || c == '今' || c == '明' || c == '后');
    lemma_earlier_heads(c);
    lemma_heads_avoid(t, marker_words());
    lemma_heads_avoid(t, remember_words());
    lemma_heads_avoid(t, need_words());
    lemma_heads_avoid(t, plan_words());
    lemma_heads_avoid(t, action_words());
    lemma_heads_avoid(t, reminder_words());
    lemma_time_opener_first(i, t);
    assert(w == time_words()[i]);
    assert(t.take(2) =~= w);
    let r = t.skip(2);
    assert(r =~= v + x);
    assert(ws_prefix_len(r) == 0) by {
        assert(r[0] == v[0]);
    }
    assert(r.skip(0) =~= r);
    lemma_time_action(j, x);
    lemma_time_verb_at(t, time_words(), time_verb_words(), i);
}

/// No earlier to-do pattern opens with the first character of a time word.
proof fn lemma_earlier_heads(c: char)
    requires
        c == '这' || c == '本' || c == '下' || c == '今' || c == '明' || c == '后',
    ensures
        heads_avoid(marker_words(), c),
        heads_avoid(remember_words(), c),
        heads_avoid(need_words(), c),
        heads_avoid(plan_words(), c),
        heads_avoid(action_words(), c),
        heads_avoid(reminder_words(), c),
{
    assert(heads_avoid(marker_words(), c)) by {
        reveal_with_fuel(heads_avoid, 5);
    }
    assert(heads_avoid(remember_words(), c)) by {
        reveal_with_fuel(heads_avoid, 3);
    }
    assert(heads_avoid(need_words(), c)) by {
        reveal_with_fuel(heads_avoid, 6);
    }
    assert(heads_avoid(plan_words(), c)) by {
        reveal_with_fuel(heads_avoid, 6);
    }
    assert(heads_avoid(action_words(), c)) by {
        reveal_with_fuel(heads_avoid, 17);
    }
    assert(heads_avoid(reminder_words(), c)) by {
        reveal_with_fuel(heads_avoid, 6);
    }
}

proof fn lemma_word_rest(words: Seq<Seq<char>>, j: int, x: Seq<char>)
    requires
        0 <= j < words.len(),
        words[j].len() > 0,
        heads_avoid(words.take(j), words[j][0]),
        x.len() > 0,
        !x.contains('\n'),
        !is_white_space(x[0]),
        !is_white_space(x.last()),
    ensures
        alts_rest(words[j] + x, words) == Some(x),
{
    let v = words[j];
    let s = v + x;
    lemma_plain_tail(x);
    assert(s.take(v.len() as int) =~= v);
    assert(s.skip(v.len() as int) =~= x);
    assert(s[0] == v[0]);
    lemma_heads_avoid(s, words.take(j));
    assert forall|k: int| 0 <= k < j implies !starts_with(s, #[trigger] words[k]) by {
        assert(words.take(j)[k] == words[k]);
    }
    lemma_alts_at(s, words, j);
}

proof fn lemma_trigger_shape(w: Seq<char>, x: Seq<char>)
    requires
        w.len() > 0,
        !is_white_space(w[0]),
        utf8_width(w[0]) >= 3,
        x.len() > 0,
        !is_white_space(x.last()),
    ensures
        trim(w + x) == w + x,
        utf8_len(w + x) >= 3,
{
    let t = w + x;
    assert(t[0] == w[0]);
    assert(t.last() == x.last());
    assert(ws_prefix_len(t) == 0);
    assert(ws_suffix_len(t) == 0);
    assert(t.skip(0) =~= t);
    assert(t.take(t.len() as int) =~= t);
    assert(t =~= seq![w[0]] + (w.drop_first() + x));
    lemma_utf8_len_concat(seq![w[0]], w.drop_first() + x);
    assert(utf8_len(seq![w[0]]) == utf8_width(w[0])) by {
        reveal_with_fuel(utf8_len, 2);
        assert(seq![w[0]].drop_last() =~= seq![]);
    }
}

/// The need words that open a to-do sentence: 需要, 必须, 应该, 得, 要.
pub open spec fn todo_need_openers() -> Seq<Seq<char>> {
    seq![seq!['需', '要'], seq!['必', '须'], seq!['应', '该'], seq!['得'], seq!['要']]
}

/// A line that opens with 需要, 必须, 应该, 得 or 要 names as its to-do item
/// what follows (`需要写周报` gives `写周报`), and so does one that opens with
/// 记得 (`记得打电话` gives `打电话`), for every tail without line breaks or
/// surrounding whitespace, within the length limit of a line.
pub proof fn law_need_word_todo(j: int, x: Seq<char>)
    requires
        0 <= j < 5,
        x.len() > 0,
        !x.contains('\n'),
        !is_white_space(x[0]),
        !is_white_space(x.last()),
        utf8_len(todo_need_openers()[j] + x) <= 200,
        utf8_len(seq!['记', '得'] + x) <= 200,
    ensures
        todo_of(todo_need_openers()[j] + x) == Some(x),
        todo_of(seq!['记', '得'] + x) == Some(x),
{
    let w = todo_need_openers()[j];
    let t = w + x;
    assert(w == need_words()[j]);
    lemma_plain_tail(x);
    lemma_trigger_shape(w, x);
    assert(t[0] == w[0]);
    assert(heads_avoid(marker_words(), t[0])) by {
        reveal_with_fuel(heads_avoid, 5);
    }
    assert(heads_avoid(remember_words(), t[0])) by {
        reveal_with_fuel(heads_avoid, 3);
    }
    lemma_heads_avoid(t, marker_words());
    lemma_heads_avoid(t, remember_words());
    assert(heads_avoid(need_words().take(j), w[0])) by {
        reveal_with_fuel(heads_avoid, 6);
        if j == 1 {
            assert(need_words().take(1).drop_first() =~= seq![]);
        } else if j == 2 {
            assert(need_words().take(2).drop_first().drop_first() =~= seq![]);
        } else if j == 3 {
            assert(need_words().take(3).drop_first().drop_first().drop_first() =~= seq![]);
        } else if j == 4 {
            assert(need_words().take(4).drop_first().drop_first().drop_first().drop_first() =~= seq![]);
        }
    }
    lemma_word_rest(need_words(), j, x);
    let r = seq!['记', '得'];
    let t2 = r + x;
    assert(r == remember_words()[0]);
    lemma_trigger_shape(r, x);
    assert(t2[0] == '记');
    assert(heads_avoid(marker_words(), t2[0])) by {
        reveal_with_fuel(heads_avoid, 5);
    }
    lemma_heads_avoid(t2, marker_words());
    assert(remember_words().take(0) =~= seq![]);
    lemma_word_rest(remember_words(), 0, x);
}

proof fn lemma_time_opener_first(i: int, t: Seq<char>)
    requires
        0 <= i < 8,
        t.len() >= 2,
        t[0] == todo_time_openers()[i][0],
        t[1] == todo_time_openers()[i][1],
    ensures
        forall|k: int| 0 <= k < i ==> !starts_with(t, #[trigger] time_words()[k]),
{
    reveal_with_fuel(pairs_avoid, 9);
    assert(pairs_avoid(time_words().take(i), t[0], t[1])) by {
        if i == 1 {
            assert(time_words().take(1).drop_first() =~= seq![]);
        } else if i == 2 {
            assert(time_words().take(2).drop_first().drop_first() =~= seq![]);
        } else if i == 3 {
            assert(time_words().take(3).drop_first().drop_first().drop_first() =~= seq![]);
        } else if i == 4 {
            assert(time_words().take(4).drop_first().drop_first().drop_first().drop_first() =~= seq![]);
        } else if i == 5 {
            assert(time_words().take(5).drop_first().drop_first().drop_first().drop_first().drop_first()
                =~= seq![]);
        } else if i == 6 {
            assert(time_words().take(6).drop_first().drop_first().drop_first().drop_first().drop_first()
                .drop_first() =~= seq![]);
        } else if i == 7 {
            assert(time_words().take(7).drop_first().drop_first().drop_first().drop_first().drop_first()
                .drop_first().drop_first() =~= seq![]);
        }
    }
    lemma_pairs_avoid(t, time_words().take(i));
    assert forall|k: int| 0 <= k < i implies !starts_with(t, #[trigger] time_words()[k]) by {
        assert(time_words().take(i)[k] == time_words()[k]);
    }
}

/// The to-do items of a session are distinct, and each is the item of one of
/// its lines.
pub proof fn law_session_todos_distinct(text: Seq<char>)
    ensures
        forall|i: int, j: int|
            0 <= i < j < session_todos(text).len() ==> session_todos(text)[i] != session_todos(
                text,
            )[j],
        forall|i: int|
            0 <= i < session_todos(text).len() ==> exists|k: int|
                0 <= k < split_lines(text).len() && todo_of(#[trigger] split_lines(text)[k]) == Some(
                    #[trigger] session_todos(text)[i],
                ),
{
    lemma_collect_todos(split_lines(text));
}

// ---------------------------------------------------------------------------
// Due dates
// ---------------------------------------------------------------------------

/// "Next week" with a weekday names that weekday of the following
/// Monday-to-Sunday week: counted from this week's Monday, it lies 7 to 13
/// days on, on the named weekday.
pub proof fn law_next_week_day(target: int, current: int)
    requires
        0 <= target < 7,
        0 <= current < 7,
    ensures
        1 <= next_week_offset(target, current) <= 13,
        7 <= current + next_week_offset(target, current) <= 13,
        (current + next_week_offset(target, current)) % 7 == target,
{
}

/// The weekday characters after 下周 or 这周/本周, Monday first; 日 and 天
/// both name Sunday.
pub open spec fn weekday_chars() -> Seq<char> {
    seq!['一', '二', '三', '四', '五', '六', '日', '天']
}

/// The day of the week each of [`weekday_chars`] names, Monday 0.
pub open spec fn weekday_numbers() -> Seq<int> {
    seq![0, 1, 2, 3, 4, 5, 6, 6]
}

proof fn lemma_no_pair_after(pre: Seq<char>, x: Seq<char>, p: Seq<char>)
    requires
        p.len() == 2,
        forall|i: int| 0 <= i < pre.len() ==> pre[i] != p[0],
        !contains(x, p),
    ensures
        !contains(pre + x, p),
{
    let t = pre + x;
    if contains(t, p) {
        let i = choose|i: int| occurs_at(t, p, i);
        assert(t.subrange(i, i + 2)[0] == t[i]);
        if i < pre.len() {
            assert(t[i] == pre[i]);
        } else {
            assert(t.subrange(i, i + 2) =~= x.subrange(i - pre.len(), i - pre.len() + 2));
            assert(occurs_at(x, p, i - pre.len()));
        }
    }
}

proof fn lemma_no_weekday_after(t: Seq<char>, i: int)
    requires
        !contains(t, seq!['下', '周']),
    ensures
        weekday_after(t, true, i) is None,
    decreases t.len() - i,
{
    if 0 <= i < t.len() {
        assert(!next_week_at(t, i));
        lemma_no_weekday_after(t, i + 1);
    }
}

/// A weekday of next week is that day of the following Monday-to-Sunday
/// week, whatever follows it: 下周一 to 下周六 are Monday to Saturday there,
/// and 下周日 and 下周天 are both its Sunday; seen from a day with weekday
/// `wd` (Monday 0), 下周 + the k-th weekday lies 7 - wd + k days on.
pub proof fn law_next_week_weekday(today: CivilDate, k: int, x: Seq<char>)
    requires
        0 <= k < 8,
        !contains(x, seq!['今', '天']),
        !contains(x, seq!['明', '天']),
        !contains(x, seq!['后', '天']),
    ensures
        due_plan(seq!['下', '周', weekday_chars()[k]] + x, today) == DuePlan::Shift(
            7 - weekday_index(today) + weekday_numbers()[k],
        ),
{
    let c = weekday_chars()[k];
    let pre = seq!['下', '周', c];
    let t = pre + x;
    lemma_no_pair_after(pre, x, seq!['今', '天']);
    lemma_no_pair_after(pre, x, seq!['明', '天']);
    lemma_no_pair_after(pre, x, seq!['后', '天']);
    assert(t.subrange(0, 2) =~= seq!['下', '周']);
    assert(next_week_at(t, 0));
    assert(t[2] == c);
    assert(weekday_after(t, true, 0) == Some(c));
}

/// A weekday of this week (这周 or 本周) is that day of the current
/// Monday-to-Sunday week, whatever follows it when it names no other week:
/// 这周日 and 这周天 are both its Sunday; seen from a day with weekday `wd`,
/// the k-th weekday lies k - wd days on.
pub proof fn law_this_week_weekday(today: CivilDate, k: int, this: bool, x: Seq<char>)
    requires
        0 <= k < 8,
        !contains(x, seq!['今', '天']),
        !contains(x, seq!['明', '天']),
        !contains(x, seq!['后', '天']),
        !contains(x, seq!['下', '周']),
    ensures
        due_plan(
            seq![if this { '这' } else { '本' }, '周', weekday_chars()[k]] + x,
            today,
        ) == DuePlan::Shift(weekday_numbers()[k] - weekday_index(today)),
{
    let c = weekday_chars()[k];
    let pre = seq![if this { '这' } else { '本' }, '周', c];
    let t = pre + x;
    lemma_no_pair_after(pre, x, seq!['今', '天']);
    lemma_no_pair_after(pre, x, seq!['明', '天']);
    lemma_no_pair_after(pre, x, seq!['后', '天']);
    lemma_no_pair_after(pre, x, seq!['下', '周']);
    lemma_no_weekday_after(t, 0);
    assert(t.subrange(0, 2) =~= seq![if this { '这' } else { '本' }, '周']);
    assert(this_week_at(t, 0));
    assert(t[2] == c);
    assert(weekday_after(t, false, 0) == Some(c));
}

/// 天 after 下周 or 这周/本周 means Sunday, as 日 does: the two texts always
/// give the same due date.
pub proof fn law_tian_is_sunday(today: CivilDate, x: Seq<char>)
    requires
        !contains(x, seq!['今', '天']),
        !contains(x, seq!['明', '天']),
        !contains(x, seq!['后', '天']),
        !contains(x, seq!['下', '周']),
    ensures
        due_plan(seq!['下', '周', '天'] + x, today) == due_plan(seq!['下', '周', '日'] + x, today),
        due_plan(seq!['这', '周', '天'] + x, today) == due_plan(seq!['这', '周', '日'] + x, today),
        due_plan(seq!['本', '周', '天'] + x, today) == due_plan(seq!['本', '周', '日'] + x, today),
{
    law_next_week_weekday(today, 6, x);
    law_next_week_weekday(today, 7, x);
    law_this_week_weekday(today, 6, true, x);
    law_this_week_weekday(today, 7, true, x);
    law_this_week_weekday(today, 6, false, x);
    law_this_week_weekday(today, 7, false, x);
}

/// 今天 anywhere makes the due date today; otherwise 明天 makes it tomorrow,
/// and otherwise 后天 the day after.
pub proof fn law_day_words(today: CivilDate, a: Seq<char>, x: Seq<char>)
    ensures
        due_plan(a + seq!['今', '天'] + x, today) == DuePlan::Exact(today),
        !contains(a + seq!['明', '天'] + x, seq!['今', '天']) ==> due_plan(a + seq!['明', '天'] + x, today)
            == DuePlan::Shift(1),
        !contains(a + seq!['后', '天'] + x, seq!['今', '天']) && !contains(
            a + seq!['后', '天'] + x,
            seq!['明', '天'],
        ) ==> due_plan(a + seq!['后', '天'] + x, today) == DuePlan::Shift(2),
{
    let t1 = a + seq!['今', '天'] + x;
    assert(t1.subrange(a.len() as int, a.len() as int + 2) =~= seq!['今', '天']);
    assert(occurs_at(t1, seq!['今', '天'], a.len() as int));
    let t2 = a + seq!['明', '天'] + x;
    assert(t2.subrange(a.len() as int, a.len() as int + 2) =~= seq!['明', '天']);
    assert(occurs_at(t2, seq!['明', '天'], a.len() as int));
    let t3 = a + seq!['后', '天'] + x;
    assert(t3.subrange(a.len() as int, a.len() as int + 2) =~= seq!['后', '天']);
    assert(occurs_at(t3, seq!['后', '天'], a.len() as int));
}

/// Without a weekday, 下周 means next week's Monday and 这周/本周 this week's
/// Friday: seen from a day with weekday `wd` (Monday 0), 7 - wd and 4 - wd
/// days on.
pub proof fn law_week_without_weekday(today: CivilDate, x: Seq<char>, this: bool)
    requires
        !contains(x, seq!['今', '天']),
        !contains(x, seq!['明', '天']),
        !contains(x, seq!['后', '天']),
        !contains(x, seq!['下', '周']),
        !contains(x, seq!['这', '周']),
        !contains(x, seq!['本', '周']),
        x.len() == 0 || !crate::due::is_weekday_char(x[0]),
    ensures
        due_plan(seq!['下', '周'] + x, today) == DuePlan::Shift(7 - weekday_index(today)),
        due_plan(seq![if this { '这' } else { '本' }, '周'] + x, today) == DuePlan::Shift(
            4 - weekday_index(today),
        ),
{
    lemma_next_week_plain(today, x);
    lemma_this_week_plain(today, x, this);
}

#[verifier::spinoff_prover]
#[verifier::rlimit(40)]
proof fn lemma_next_week_plain(today: CivilDate, x: Seq<char>)
    requires
        !contains(x, seq!['今', '天']),
        !contains(x, seq!['明', '天']),
        !contains(x, seq!['后', '天']),
        !contains(x, seq!['下', '周']),
        !contains(x, seq!['这', '周']),
        !contains(x, seq!['本', '周']),
        x.len() == 0 || !crate::due::is_weekday_char(x[0]),
    ensures
        due_plan(seq!['下', '周'] + x, today) == DuePlan::Shift(7 - weekday_index(today)),
{
    let p1 = seq!['下', '周'];
    let t1 = p1 + x;
    lemma_no_pair_after(p1, x, seq!['今', '天']);
    lemma_no_pair_after(p1, x, seq!['明', '天']);
    lemma_no_pair_after(p1, x, seq!['后', '天']);
    assert(t1.subrange(0, 2) =~= p1);
    assert(occurs_at(t1, p1, 0));
    lemma_pair_only_at_start(p1, x, seq!['下', '周']);
    lemma_no_pair_after(p1, x, seq!['这', '周']);
    lemma_no_pair_after(p1, x, seq!['本', '周']);
    if t1.len() > 2 {
        assert(t1[2] == x[0]);
    }
    lemma_week_no_weekday(t1, true, 0);
    lemma_week_no_weekday(t1, false, 0);
}

#[verifier::spinoff_prover]
#[verifier::rlimit(40)]
proof fn lemma_this_week_plain(today: CivilDate, x: Seq<char>, this: bool)
    requires
        !contains(x, seq!['今', '天']),
        !contains(x, seq!['明', '天']),
        !contains(x, seq!['后', '天']),
        !contains(x, seq!['下', '周']),
        !contains(x, seq!['这', '周']),
        !contains(x, seq!['本', '周']),
        x.len() == 0 || !crate::due::is_weekday_char(x[0]),
    ensures
        due_plan(seq![if this { '这' } else { '本' }, '周'] + x, today) == DuePlan::Shift(
            4 - weekday_index(today),
        ),
{
    let p2 = seq![if this { '这' } else { '本' }, '周'];
    let t2 = p2 + x;
    lemma_no_pair_after(p2, x, seq!['今', '天']);
    lemma_no_pair_after(p2, x, seq!['明', '天']);
    lemma_no_pair_after(p2, x, seq!['后', '天']);
    lemma_no_pair_after(p2, x, seq!['下', '周']);
    lemma_no_weekday_after(t2, 0);
    lemma_pair_only_at_start(p2, x, seq!['这', '周']);
    lemma_pair_only_at_start(p2, x, seq!['本', '周']);
    if t2.len() > 2 {
        assert(t2[2] == x[0]);
    }
    lemma_week_no_weekday(t2, false, 0);
    assert(t2.subrange(0, 2) =~= p2);
    assert(occurs_at(t2, p2, 0));
}

proof fn lemma_pair_only_at_start(p: Seq<char>, x: Seq<char>, q: Seq<char>)
    requires
        p.len() == 2,
        q.len() == 2,
        p[1] != q[0],
        !contains(x, q),
    ensures
        forall|j: int| 1 <= j ==> !occurs_at(#[trigger] (p + x), q, j),
{
    assert forall|j: int| 1 <= j implies !occurs_at(#[trigger] (p + x), q, j) by {
        let t = p + x;
        if occurs_at(t, q, j) {
            assert(t.subrange(j, j + 2)[0] == t[j]);
            if j == 1 {
                assert(t[1] == p[1]);
            } else {
                assert(t.subrange(j, j + 2) =~= x.subrange(j - 2, j));
                assert(occurs_at(x, q, j - 2));
            }
        }
    }
}

proof fn lemma_week_no_weekday(t: Seq<char>, next: bool, i: int)
    requires
        t.len() >= 2,
        t.len() == 2 || !crate::due::is_weekday_char(t[2]),
        forall|j: int| 1 <= j < t.len() ==> !(if next { next_week_at(t, j) } else { this_week_at(t, j) }),
    ensures
        weekday_after(t, next, i) is None,
    decreases t.len() - i,
{
    if 0 <= i < t.len() {
        lemma_week_no_weekday(t, next, i + 1);
    } else if i < 0 {
    }
}

/// A month and day is never read as a date already past, as long as next
/// year has that date.
pub proof fn law_month_day_not_past(today: CivilDate, m: u32, d: u32)
    requires
        valid_date(today),
        valid_ymd(today.year as int, m as int, d as int),
        valid_ymd(today.year + 1, m as int, d as int),
    ensures
        !date_before(upcoming(today, m, d), today),
{
}

// ---------------------------------------------------------------------------
// Focus tracking
// ---------------------------------------------------------------------------

/// After every sample the current session is the focused target's, unless
/// the session to store could not be stored: then it stays as it was, so that
/// no focus time is lost.
pub proof fn law_focus_follows_target(
    before: Option<FocusSessionView>,
    active: TargetView,
    now: i64,
    idle: i64,
    stored: bool,
    after: Option<FocusSessionView>,
)
    requires
        focus_step(before, active, now, idle, stored, after),
    ensures
        stored || to_store(before, active, idle) is None ==> (after matches Some(a)
            && a.target.target_id == active.target_id),
        !stored && to_store(before, active, idle) is Some ==> after == before,
{
}

// ---------------------------------------------------------------------------
// AI analysis
// ---------------------------------------------------------------------------

/// The call a route makes, if it makes one.
pub open spec fn call_of(r: AnalysisRoute) -> Option<LlmRequest> {
    match r {
        AnalysisRoute::Call(q) => Some(q),
        AnalysisRoute::Demo(_) => None,
    }
}

/// The custom provider is an OpenAI-style service reached through the OpenAI
/// settings: with the same other settings, choosing `custom` in place of
/// `openai` calls the same endpoint with the same key and model, only under
/// the other provider's name; one of the two makes a call exactly when the
/// other does.
pub proof fn law_custom_provider_uses_openai_settings(
    cfg: Map<Seq<char>, Seq<char>>,
    custom: AnalysisRoute,
    openai: AnalysisRoute,
)
    requires
        route_is(cfg.insert("ai_provider"@, "custom"@), custom),
        route_is(cfg.insert("ai_provider"@, "openai"@), openai),
    ensures
        call_of(custom) is Some <==> call_of(openai) is Some,
        call_of(custom) is Some ==> {
            let c = call_of(custom)->0;
            let o = call_of(openai)->0;
            &&& c.provider == Provider::Custom
            &&& o.provider == Provider::OpenAi
            &&& c.api_key@ == o.api_key@
            &&& c.url@ == o.url@
            &&& opt_string(c.model) == opt_string(o.model)
        },
{
    reveal_strlit("ai_provider");
    reveal_strlit("custom");
    reveal_strlit("openai");
    reveal_strlit("volcengine");
    reveal_strlit("openai_api_key");
    reveal_strlit("openai_base_url");
    reveal_strlit("openai_model");
    let c = cfg.insert("ai_provider"@, "custom"@);
    let o = cfg.insert("ai_provider"@, "openai"@);
    assert("custom"@ != "openai"@) by {
        assert("custom"@[0] != "openai"@[0]);
    }
    assert("openai_base_url"@ != "ai_provider"@) by {
        assert("openai_base_url"@.len() != "ai_provider"@.len());
    }
    assert("openai_model"@ != "ai_provider"@) by {
        assert("openai_model"@[0] != "ai_provider"@[0]);
    }
    assert("openai_api_key"@ != "ai_provider"@) by {
        assert("openai_api_key"@[0] != "ai_provider"@[0]);
    }
    assert(setting_or(c, "ai_provider"@, "minimax"@) == "custom"@);
    assert(provider_of(c) == Provider::Custom);
    assert(provider_of(o) == Provider::OpenAi);
    assert(setting_or(c, "openai_api_key"@, ""@) == setting_or(o, "openai_api_key"@, ""@));
    assert(request_url(c, Provider::Custom) == request_url(o, Provider::OpenAi));
    assert(request_model(c, Provider::Custom) == request_model(o, Provider::OpenAi));
}

/// With the custom provider and a key, the call goes to the chat-completions
/// endpoint under the `openai_base_url` setting (by default
/// `https://api.openai.com/v1`) and asks for the `openai_model` setting (by
/// default `gpt-4o-mini`).
pub proof fn law_custom_provider_endpoint_and_model(cfg: Map<Seq<char>, Seq<char>>, r: AnalysisRoute)
    requires
        route_is(cfg, r),
        provider_of(cfg) == Provider::Custom,
        call_of(r) is Some,
    ensures
        call_of(r)->0.url@ == trim_slashes(
            if cfg.contains_key("openai_base_url"@) {
                cfg["openai_base_url"@]
            } else {
                "https://api.openai.com/v1"@
            },
        ) + "/chat/completions"@,
        opt_string(call_of(r)->0.model) == Some(
            if cfg.contains_key("openai_model"@) {
                cfg["openai_model"@]
            } else {
                "gpt-4o-mini"@
            },
        ),
{
}

proof fn lemma_first_index_exists(s: Seq<char>, c: char)
    requires
        s.contains(c),
    ensures
        exists|k: int| 0 <= k < s.len() && s[k] == c && forall|j: int| 0 <= j < k ==> s[j] != c,
    decreases s.len(),
{
    if s[0] != c {
        let t = s.drop_first();
        let i = choose|i: int| 0 <= i < s.len() && s[i] == c;
        assert(t[i - 1] == c);
        lemma_first_index_exists(t, c);
        let k = choose|k: int| 0 <= k < t.len() && t[k] == c && forall|j: int| 0 <= j < k ==> t[j] != c;
        assert(s[k + 1] == c);
        assert forall|j: int| 0 <= j < k + 1 implies s[j] != c by {
            if j > 0 {
                assert(s[j] == t[j - 1]);
            }
        }
    } else {
        assert(s[0] == c);
    }
}

proof fn lemma_before_char(s: Seq<char>, c: char)
    ensures
        before_char(s, c).len() <= s.len(),
        forall|i: int| 0 <= i < before_char(s, c).len() ==> before_char(s, c)[i] == s[i],
        !before_char(s, c).contains(c),
{
    if s.contains(c) {
        lemma_first_index_exists(s, c);
        let k = first_index_of(s, c);
        assert(0 <= k < s.len() && s[k] == c && forall|j: int| 0 <= j < k ==> s[j] != c);
    }
    if before_char(s, c).contains(c) {
        let i = choose|i: int| 0 <= i < before_char(s, c).len() && before_char(s, c)[i] == c;
        if s.contains(c) {
            assert(s[i] != c);
        } else {
            assert(s[i] == c);
        }
    }
}

proof fn lemma_before_char_at(h: Seq<char>, p: Seq<char>, c: char)
    requires
        !h.contains(c),
    ensures
        before_char(h + seq![c] + p, c) == h,
        before_char(h, c) == h,
{
    let r = h + seq![c] + p;
    assert(r[h.len() as int] == c);
    assert(r.contains(c));
    lemma_first_index_exists(r, c);
    let k = first_index_of(r, c);
    assert(0 <= k < r.len() && r[k] == c && forall|j: int| 0 <= j < k ==> r[j] != c);
    if k < h.len() {
        assert(r[k] == h[k]);
        assert(h.contains(c));
    }
    if k > h.len() {
        assert(r[h.len() as int] != c);
    }
    assert(r.take(h.len() as int) =~= h);
    assert(h.take(h.len() as int) =~= h);
}

/// A domain read from an address is a bare host name: it never holds a slash
/// (nothing of the path) nor a colon (nothing of the port), and is never empty.
pub proof fn law_domain_is_bare_host(url: Seq<char>)
    ensures
        domain_of(url) matches Some(d) ==> d.len() > 0 && !d.contains('/') && !d.contains(':'),
{
    reveal_strlit("https://");
    reveal_strlit("http://");
    reveal_strlit("www.");
    if domain_of(url) is Some {
        let r = if starts_with(url, "https://"@) {
            url.skip(8)
        } else {
            url.skip(7)
        };
        let host = before_char(r, '/');
        let domain = before_char(host, ':');
        lemma_before_char(r, '/');
        lemma_before_char(host, ':');
        let d = domain_of(url)->0;
        assert forall|i: int| 0 <= i < d.len() implies d[i] != '/' && d[i] != ':' by {
            if starts_with(domain, "www."@) {
                assert(d[i] == domain[i + 4]);
                assert(domain[i + 4] == host[i + 4]);
            } else {
                assert(d[i] == domain[i]);
                assert(domain[i] == host[i]);
            }
        }
    }
}

proof fn lemma_domain_after_prefix(pre: Seq<char>, n: int, a: Seq<char>, b: Seq<char>, h: Seq<char>)
    requires
        n == pre.len(),
        a.take(n) == pre,
        b.take(n) == pre,
        a.skip(n) == b.skip(n) + seq!['/'] + a.skip(n + b.skip(n).len() + 1),
        b.skip(n) == h,
        !h.contains('/'),
        n <= b.len(),
    ensures
        before_char(a.skip(n), '/') == before_char(b.skip(n), '/'),
{
    lemma_before_char_at(h, a.skip(n + h.len() + 1), '/');
}

/// The path of an address does not change its domain: an `https` or `http`
/// address with a path has the domain of the same address without it.
pub proof fn law_domain_ignores_path(h: Seq<char>, p: Seq<char>)
    requires
        !h.contains('/'),
    ensures
        domain_of("https://"@ + h + "/"@ + p) == domain_of("https://"@ + h),
        domain_of("http://"@ + h + "/"@ + p) == domain_of("http://"@ + h),
{
    lemma_domain_ignores_path_https(h, p);
    lemma_domain_ignores_path_http(h, p);
}

proof fn lemma_domain_ignores_path_https(h: Seq<char>, p: Seq<char>)
    requires
        !h.contains('/'),
    ensures
        domain_of("https://"@ + h + "/"@ + p) == domain_of("https://"@ + h),
{
    reveal_strlit("https://");
    reveal_strlit("/");
    let a = "https://"@ + h + "/"@ + p;
    let b = "https://"@ + h;
    assert(a.take(8) =~= "https://"@);
    assert(b.take(8) =~= "https://"@);
    assert(b.skip(8) =~= h);
    assert(a.skip(8 + h.len() as int + 1) =~= p);
    assert(a.skip(8) =~= b.skip(8) + seq!['/'] + p);
    lemma_domain_after_prefix("https://"@, 8, a, b, h);
    assert(starts_with(a, "https://"@));
    assert(starts_with(b, "https://"@));
}

proof fn lemma_domain_ignores_path_http(h: Seq<char>, p: Seq<char>)
    requires
        !h.contains('/'),
    ensures
        domain_of("http://"@ + h + "/"@ + p) == domain_of("http://"@ + h),
{
    reveal_strlit("https://");
    reveal_strlit("http://");
    reveal_strlit("/");
    let a = "http://"@ + h + "/"@ + p;
    let b = "http://"@ + h;
    assert(!starts_with(a, "https://"@)) by {
        if starts_with(a, "https://"@) {
            assert(a.take(8)[4] == a[4]);
        }
    }
    assert(!starts_with(b, "https://"@)) by {
        if starts_with(b, "https://"@) {
            assert(b.take(8)[4] == b[4]);
        }
    }
    assert(a.take(7) =~= "http://"@);
    assert(b.take(7) =~= "http://"@);
    assert(b.skip(7) =~= h);
    assert(a.skip(7 + h.len() as int + 1) =~= p);
    assert(a.skip(7) =~= b.skip(7) + seq!['/'] + p);
    lemma_domain_after_prefix("http://"@, 7, a, b, h);
    assert(starts_with(a, "http://"@));
    assert(starts_with(b, "http://"@));
}

/// Which key a route uses, and when no call is made: OpenAI and the custom
/// service use `openai_api_key`, Volcengine `volcengine_api_key`, MiniMax
/// (also the service of an unknown or missing provider name)
/// `minimax_api_key`; with that key unset or empty the demo message naming
/// the service is stored instead of a call.
pub proof fn law_route_key(cfg: Map<Seq<char>, Seq<char>>, r: AnalysisRoute)
    requires
        route_is(cfg, r),
    ensures
        ({
            let p = provider_of(cfg);
            let name = if p == Provider::OpenAi || p == Provider::Custom {
                "openai_api_key"@
            } else if p == Provider::Volcengine {
                "volcengine_api_key"@
            } else {
                "minimax_api_key"@
            };
            let key = if cfg.contains_key(name) {
                cfg[name]
            } else {
                ""@
            };
            &&& call_of(r) is None <==> key.len() == 0
            &&& call_of(r) is Some ==> call_of(r)->0.api_key@ == key && call_of(r)->0.provider == p
        }),
        provider_of(cfg) == Provider::MiniMax <==> !(setting_or(cfg, "ai_provider"@, "minimax"@)
            == "openai"@ || setting_or(cfg, "ai_provider"@, "minimax"@) == "custom"@ || setting_or(
            cfg,
            "ai_provider"@,
            "minimax"@,
        ) == "volcengine"@),
{
}

/// Volcengine is called at the chat-completions endpoint under
/// `volcengine_base_url` (by default `https://ark.cn-beijing.volces.com/api/v3`)
/// for the `volcengine_model` setting (by default `doubao-pro-4k`); MiniMax at
/// its own endpoint, with `?GroupId=` and the group when one is set, naming
/// no model; OpenAI like the custom service.
pub proof fn law_route_endpoints(cfg: Map<Seq<char>, Seq<char>>, r: AnalysisRoute)
    requires
        route_is(cfg, r),
        call_of(r) is Some,
    ensures
        provider_of(cfg) == Provider::Volcengine ==> call_of(r)->0.url@ == trim_slashes(
            setting_or(cfg, "volcengine_base_url"@, "https://ark.cn-beijing.volces.com/api/v3"@),
        ) + "/chat/completions"@ && opt_string(call_of(r)->0.model) == Some(
            setting_or(cfg, "volcengine_model"@, "doubao-pro-4k"@),
        ),
        provider_of(cfg) == Provider::OpenAi ==> call_of(r)->0.url@ == trim_slashes(
            setting_or(cfg, "openai_base_url"@, "https://api.openai.com/v1"@),
        ) + "/chat/completions"@ && opt_string(call_of(r)->0.model) == Some(
            setting_or(cfg, "openai_model"@, "gpt-4o-mini"@),
        ),
        provider_of(cfg) == Provider::MiniMax ==> call_of(r)->0.model is None && (if setting_or(
            cfg,
            "minimax_group_id"@,
            ""@,
        ).len() == 0 {
            call_of(r)->0.url@ == "https://api.minimax.chat/v1/text/chatcompletion_v2"@
        } else {
            call_of(r)->0.url@ == "https://api.minimax.chat/v1/text/chatcompletion_v2?GroupId="@
                + setting_or(cfg, "minimax_group_id"@, ""@)
        }),
{
    reveal_strlit("https://api.minimax.chat/v1/text/chatcompletion_v2");
    reveal_strlit("https://api.minimax.chat/v1/text/chatcompletion_v2?GroupId=");
    reveal_strlit("?GroupId=");
    if provider_of(cfg) == Provider::MiniMax && setting_or(cfg, "minimax_group_id"@, ""@).len() > 0 {
        assert("https://api.minimax.chat/v1/text/chatcompletion_v2?GroupId="@ =~= crate::analysis::MINIMAX_URL@
            + "?GroupId="@);
    }
}

/// A plain host name is its own domain, behind `https://` or `http://`:
/// with `h` non-empty, without slash or colon, and not starting with `www.`,
/// the domain of the address is `h`; a leading `www.` and a port are dropped.
#[verifier::spinoff_prover]
#[verifier::rlimit(80)]
pub proof fn law_domain_of_host(h: Seq<char>, port: Seq<char>, https: bool)
    requires
        h.len() > 0,
        !h.contains('/'),
        !h.contains(':'),
        !starts_with(h, "www."@),
        !port.contains('/'),
    ensures
        domain_of((if https { "https://"@ } else { "http://"@ }) + h) == Some(h),
        domain_of((if https { "https://"@ } else { "http://"@ }) + "www."@ + h) == Some(h),
        domain_of((if https { "https://"@ } else { "http://"@ }) + h + ":"@ + port) == Some(h),
{
    reveal_strlit("https://");
    reveal_strlit("http://");
    reveal_strlit("www.");
    reveal_strlit(":");
    let pre = if https { "https://"@ } else { "http://"@ };
    let n = pre.len() as int;
    let a = pre + h;
    let b = pre + "www."@ + h;
    let c = pre + h + ":"@ + port;
    assert(starts_with(a, pre) && starts_with(b, pre) && starts_with(c, pre)) by {
        assert(a.take(n) =~= pre);
        assert(b.take(n) =~= pre);
        assert(c.take(n) =~= pre);
    }
    if !https {
        assert(!starts_with(a, "https://"@)) by {
            if starts_with(a, "https://"@) {
                assert(a.take(8)[4] == a[4]);
            }
        }
        assert(!starts_with(b, "https://"@)) by {
            if starts_with(b, "https://"@) {
                assert(b.take(8)[4] == b[4]);
            }
        }
        assert(!starts_with(c, "https://"@)) by {
            if starts_with(c, "https://"@) {
                assert(c.take(8)[4] == c[4]);
            }
        }
    }
    assert(a.skip(n) =~= h);
    let w = "www."@ + h;
    assert(b.skip(n) =~= w);
    assert(!w.contains('/')) by {
        if w.contains('/') {
            let i = choose|i: int| 0 <= i < w.len() && w[i] == '/';
            if i >= 4 {
                assert(h[i - 4] == '/');
            }
        }
    }
    assert(!w.contains(':')) by {
        if w.contains(':') {
            let i = choose|i: int| 0 <= i < w.len() && w[i] == ':';
            if i >= 4 {
                assert(h[i - 4] == ':');
            }
        }
    }
    lemma_before_char_at(h, seq![], '/');
    lemma_before_char_at(h, seq![], ':');
    lemma_before_char_at(w, seq![], '/');
    lemma_before_char_at(w, seq![], ':');
    assert(w.take(4) =~= "www."@);
    assert(w.skip(4) =~= h);
    let hp = h + seq![':'] + port;
    assert(c.skip(n) =~= hp);
    assert(!hp.contains('/')) by {
        if hp.contains('/') {
            let i = choose|i: int| 0 <= i < hp.len() && hp[i] == '/';
            if i < h.len() {
                assert(h[i] == '/');
            } else if i > h.len() {
                assert(port[i - h.len() - 1] == '/');
            }
        }
    }
    lemma_before_char_at(hp, seq![], '/');
    lemma_before_char_at(h, port, ':');
}

/// Slashes at the end of a base URL do not change the endpoint called.
pub proof fn law_chat_url_ignores_trailing_slash(base: Seq<char>)
    ensures
        chat_url(base.push('/')) == chat_url(base),
        trim_slashes(trim_slashes(base)) == trim_slashes(base),
    decreases base.len(),
{
    assert(base.push('/').drop_last() =~= base);
    lemma_trim_slashes_idempotent(base);
}

proof fn lemma_trim_slashes_idempotent(s: Seq<char>)
    ensures
        trim_slashes(trim_slashes(s)) == trim_slashes(s),
    decreases s.len(),
{
    if s.len() > 0 && s.last() == '/' {
        lemma_trim_slashes_idempotent(s.drop_last());
    }
}

/// The text sent for analysis never runs over the byte limit of its kind by
/// more than the truncation note.
pub proof fn law_analysis_text_within_limit(kind: Seq<char>, es: Seq<AnalysisEvent>)
    ensures
        analysis_text_of(kind, es) matches Some(t) ==> utf8_len(t) <= analysis_window(kind).1
            + utf8_len(TRUNCATION_NOTE@),
{
    let n = analysis_window(kind).0;
    let cap = analysis_window(kind).1;
    let t = crate::analysis::event_lines(
        kind == "weekly"@,
        es.take(
            if es.len() < n {
                es.len() as int
            } else {
                n as int
            },
        ),
    );
    if utf8_len(t) > cap && exists|k: int| 0 <= k <= t.len() && utf8_len(#[trigger] t.take(k)) == cap {
        let k = choose|k: int| 0 <= k <= t.len() && utf8_len(#[trigger] t.take(k)) == cap;
        lemma_utf8_len_concat(t.take(k), TRUNCATION_NOTE@);
    }
}

} // verus!
