//! When the background analyses and the data clean-up run. The scheduler
//! wakes every minute with the local time and runs what is due: the daily
//! analyses at 03:00, the weekly review on Sundays at 03:30, the to-do
//! analysis on the hour, and the clean-up at 00:05, each at most once in its
//! period.
use vstd::prelude::*;
use crate::dates::{valid_date, weekday_index, CivilDate};
use chrono::{Datelike, Timelike};

verus! {

/// A local time to the minute, with the day of the week (Monday 0).
#[derive(Clone, Copy, Debug, PartialEq, Eq, Structural)]
pub struct LocalTime {
    pub date: CivilDate,
    pub hour: u32,
    pub minute: u32,
    pub weekday: u32,
}

/// The start of an hour: its date and hour.
#[derive(Clone, Copy, Debug, PartialEq, Eq, Structural)]
pub struct HourStamp {
    pub date: CivilDate,
    pub hour: u32,
}

/// When each task last ran.
#[derive(Clone, Copy, Debug)]
pub struct SchedulerState {
    pub last_daily: Option<CivilDate>,
    pub last_weekly: Option<CivilDate>,
    pub last_hourly: Option<HourStamp>,
    pub last_cleanup: Option<CivilDate>,
}

/// A task that is due.
#[derive(Clone, Debug)]
pub enum ScheduledTask {
    /// An analysis of the given kind (`productivity`, `topic`, `writing`,
    /// `weekly`, `todo`).
    Analysis(String),
    /// Deleting data older than the retention period.
    Cleanup,
}

pub enum TaskView {
    Analysis(Seq<char>),
    Cleanup,
}

impl View for ScheduledTask {
    type V = TaskView;

    open spec fn view(&self) -> TaskView {
        match self {
            ScheduledTask::Analysis(k) => TaskView::Analysis(k@),
            ScheduledTask::Cleanup => TaskView::Cleanup,
        }
    }
}

pub open spec fn task_views(v: Seq<ScheduledTask>) -> Seq<TaskView> {
    Seq::new(v.len(), |i: int| v[i]@)
}

/// The daily analyses run at 03:00, once a day.
pub open spec fn daily_due(s: SchedulerState, t: LocalTime) -> bool {
    t.hour == 3 && t.minute == 0 && s.last_daily != Some(t.date)
}

/// The weekly review runs on Sundays at 03:30, once that day.
pub open spec fn weekly_due(s: SchedulerState, t: LocalTime) -> bool {
    t.weekday == 6 && t.hour == 3 && t.minute == 30 && s.last_weekly != Some(t.date)
}

/// The to-do analysis runs on the hour, once an hour.
pub open spec fn hourly_due(s: SchedulerState, t: LocalTime) -> bool {
    t.minute == 0 && s.last_hourly != Some(HourStamp { date: t.date, hour: t.hour })
}

/// The clean-up runs at 00:05, once a day.
pub open spec fn cleanup_due(s: SchedulerState, t: LocalTime) -> bool {
    t.hour == 0 && t.minute == 5 && s.last_cleanup != Some(t.date)
}

/// The tasks due at `t`, in the order they run.
pub open spec fn due_tasks(s: SchedulerState, t: LocalTime) -> Seq<TaskView> {
    (if daily_due(s, t) {
        seq![
            TaskView::Analysis("productivity"@),
            TaskView::Analysis("topic"@),
            TaskView::Analysis("writing"@),
        ]
    } else {
        seq![]
    }) + (if weekly_due(s, t) {
        seq![TaskView::Analysis("weekly"@)]
    } else {
        seq![]
    }) + (if hourly_due(s, t) {
        seq![TaskView::Analysis("todo"@)]
    } else {
        seq![]
    }) + (if cleanup_due(s, t) {
        seq![TaskView::Cleanup]
    } else {
        seq![]
    })
}

/// The state after the tasks due at `t` ran.
pub open spec fn after_tick(s: SchedulerState, t: LocalTime) -> SchedulerState {
    SchedulerState {
        last_daily: if daily_due(s, t) {
            Some(t.date)
        } else {
            s.last_daily
        },
        last_weekly: if weekly_due(s, t) {
            Some(t.date)
        } else {
            s.last_weekly
        },
        last_hourly: if hourly_due(s, t) {
            Some(HourStamp { date: t.date, hour: t.hour })
        } else {
            s.last_hourly
        },
        last_cleanup: if cleanup_due(s, t) {
            Some(t.date)
        } else {
            s.last_cleanup
        },
    }
}

/// A scheduler for which nothing has run yet.
pub fn new_scheduler() -> (r: SchedulerState)
    ensures
        r == (SchedulerState {
            last_daily: None,
            last_weekly: None,
            last_hourly: None,
            last_cleanup: None,
        }),
{
    SchedulerState { last_daily: None, last_weekly: None, last_hourly: None, last_cleanup: None }
}

fn same_day(a: Option<CivilDate>, d: CivilDate) -> (r: bool)
    ensures
        r == (a == Some(d)),
{
    match a {
        Some(x) => x.year == d.year && x.month == d.month && x.day == d.day,
        None => false,
    }
}

fn same_hour(a: Option<HourStamp>, h: HourStamp) -> (r: bool)
    ensures
        r == (a == Some(h)),
{
    match a {
        Some(x) => same_day(Some(x.date), h.date) && x.hour == h.hour,
        None => false,
    }
}

/// The tasks due at `t`, in the order they run, and the state after they ran.
pub fn scheduler_tick(state: &mut SchedulerState, t: &LocalTime) -> (r: Vec<ScheduledTask>)
    ensures
        task_views(r@) == due_tasks(*old(state), *t),
        *final(state) == after_tick(*old(state), *t),
{
    let ghost s0 = *state;
    let mut tasks: Vec<ScheduledTask> = Vec::new();
    if t.hour == 3 && t.minute == 0 && !same_day(state.last_daily, t.date) {
        state.last_daily = Some(t.date);
        tasks.push(ScheduledTask::Analysis("productivity".to_owned()));
        tasks.push(ScheduledTask::Analysis("topic".to_owned()));
        tasks.push(ScheduledTask::Analysis("writing".to_owned()));
    }
    let ghost n1 = tasks@.len();
    if t.weekday == 6 && t.hour == 3 && t.minute == 30 && !same_day(state.last_weekly, t.date) {
        state.last_weekly = Some(t.date);
        tasks.push(ScheduledTask::Analysis("weekly".to_owned()));
    }
    let hs = HourStamp { date: t.date, hour: t.hour };
    if t.minute == 0 && !same_hour(state.last_hourly, hs) {
        state.last_hourly = Some(hs);
        tasks.push(ScheduledTask::Analysis("todo".to_owned()));
    }
    if t.hour == 0 && t.minute == 5 && !same_day(state.last_cleanup, t.date) {
        state.last_cleanup = Some(t.date);
        tasks.push(ScheduledTask::Cleanup);
    }
    assert(task_views(tasks@) =~= due_tasks(s0, *t));
    tasks
}

/// A local time the clock can give: a valid date, hours and minutes in range,
/// and the weekday of the date.
pub open spec fn valid_local_time(t: LocalTime) -> bool {
    valid_date(t.date) && t.hour < 24 && t.minute < 60 && t.weekday == weekday_index(t.date)
}

/// `chrono::Local::now()`, read as date, hour, minute and weekday. It
/// depends on the clock; all that is stated is that it is a valid local time.
#[verifier::external_body]
fn local_now() -> (r: LocalTime)
    ensures
        valid_local_time(r),
{
    let now = chrono::Local::now();
    let d = now.date_naive();
    LocalTime {
        date: CivilDate { year: d.year(), month: d.month(), day: d.day() },
        hour: now.hour(),
        minute: now.minute(),
        weekday: now.weekday().num_days_from_monday(),
    }
}

/// Wakes the scheduler at the current local time: the tasks due then, in the
/// order they run. The time is read from the clock; the tasks and the new
/// state are those of [`scheduler_tick`] at some valid local time.
pub fn tick_now(state: &mut SchedulerState) -> (r: Vec<ScheduledTask>)
    ensures
        exists|t: LocalTime|
            valid_local_time(t) && task_views(r@) == due_tasks(*old(state), t) && *final(state)
                == #[trigger] after_tick(*old(state), t),
{
    let t = local_now();
    scheduler_tick(state, &t)
}

} // verus!
