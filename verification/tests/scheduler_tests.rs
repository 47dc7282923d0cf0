use personal_log_ai::dates::CivilDate;
use personal_log_ai::scheduler::{new_scheduler, scheduler_tick, tick_now, LocalTime, ScheduledTask};

fn at(day: u32, weekday: u32, hour: u32, minute: u32) -> LocalTime {
    LocalTime { date: CivilDate { year: 2026, month: 7, day }, hour, minute, weekday }
}

fn names(tasks: &[ScheduledTask]) -> Vec<String> {
    tasks
        .iter()
        .map(|t| match t {
            ScheduledTask::Analysis(k) => k.clone(),
            ScheduledTask::Cleanup => "cleanup".to_string(),
        })
        .collect()
}

#[test]
fn daily_analyses_run_at_three_once() {
    let mut s = new_scheduler();
    let tasks = scheduler_tick(&mut s, &at(14, 1, 3, 0));
    assert_eq!(names(&tasks), vec!["productivity", "topic", "writing", "todo"]);
    assert!(scheduler_tick(&mut s, &at(14, 1, 3, 0)).is_empty());
    let tasks = scheduler_tick(&mut s, &at(15, 2, 3, 0));
    assert_eq!(names(&tasks), vec!["productivity", "topic", "writing", "todo"]);
}

#[test]
fn weekly_review_on_sunday_half_past_three() {
    let mut s = new_scheduler();
    assert_eq!(names(&scheduler_tick(&mut s, &at(19, 6, 3, 30))), vec!["weekly"]);
    assert!(scheduler_tick(&mut s, &at(19, 6, 3, 30)).is_empty());
    assert!(scheduler_tick(&mut s, &at(18, 5, 3, 30)).is_empty());
}

#[test]
fn todo_analysis_every_hour_and_cleanup_after_midnight() {
    let mut s = new_scheduler();
    assert_eq!(names(&scheduler_tick(&mut s, &at(14, 1, 10, 0))), vec!["todo"]);
    assert!(scheduler_tick(&mut s, &at(14, 1, 10, 1)).is_empty());
    assert_eq!(names(&scheduler_tick(&mut s, &at(14, 1, 11, 0))), vec!["todo"]);
    assert_eq!(names(&scheduler_tick(&mut s, &at(15, 2, 0, 5))), vec!["cleanup"]);
    assert!(scheduler_tick(&mut s, &at(15, 2, 0, 5)).is_empty());
}

#[test]
fn a_wake_up_at_the_current_time_runs_at_most_one_round() {
    let mut s = new_scheduler();
    let _ = tick_now(&mut s);
    let again = tick_now(&mut s);
    assert!(again.len() <= 4);
}
