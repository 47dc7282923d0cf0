use personal_log_ai::analysis::chat_completions_url;
use personal_log_ai::config::{default_store, init_config};
use personal_log_ai::dates::CivilDate;
use personal_log_ai::due::due_date_of;
use personal_log_ai::scheduler::{new_scheduler, scheduler_tick, LocalTime, ScheduledTask};
use personal_log_ai::todo::{extract_todo_from_text, extract_todos_from_session};

#[test]
fn stored_settings_without_values_leave_the_defaults() {
    let rows = vec![("ai_provider".to_string(), None), ("openai_model".to_string(), None)];
    let cfg = init_config(&rows);
    let mut a = cfg.entries();
    let mut b = default_store().entries();
    a.sort();
    b.sort();
    assert_eq!(a, b);
}

#[test]
fn todo_items_are_trimmed() {
    assert_eq!(extract_todo_from_text("TODO:   买牛奶  "), Some("买牛奶".to_string()));
    assert_eq!(extract_todo_from_text("  需要写周报 \n"), extract_todo_from_text("需要写周报"));
    assert_eq!(extract_todo_from_text("\t请帮我买个东西  "), Some("请帮我买个东西".to_string()));
}

#[test]
fn session_items_are_distinct() {
    let items = extract_todos_from_session("需要写周报\n要写周报\nTODO: 写周报\n记得打电话");
    assert_eq!(items, vec!["写周报", "打电话"]);
}

#[test]
fn next_week_days_fall_in_the_following_week() {
    let wednesday = CivilDate { year: 2026, month: 7, day: 8 };
    assert_eq!(due_date_of("下周一开会", &wednesday), Some(CivilDate { year: 2026, month: 7, day: 13 }));
    assert_eq!(due_date_of("下周去出差", &wednesday), Some(CivilDate { year: 2026, month: 7, day: 13 }));
    assert_eq!(due_date_of("这周五提交", &wednesday), Some(CivilDate { year: 2026, month: 7, day: 10 }));
    let wednesday = CivilDate { year: 2026, month: 7, day: 15 };
    assert_eq!(due_date_of("下周三开会", &wednesday), Some(CivilDate { year: 2026, month: 7, day: 22 }));
    assert_eq!(due_date_of("下周日休息", &wednesday), Some(CivilDate { year: 2026, month: 7, day: 26 }));
}

#[test]
fn month_days_already_past_move_to_next_year() {
    let today = CivilDate { year: 2026, month: 7, day: 15 };
    assert_eq!(due_date_of("3月1日交", &today), Some(CivilDate { year: 2027, month: 3, day: 1 }));
    assert_eq!(due_date_of("7月15日交", &today), Some(CivilDate { year: 2026, month: 7, day: 15 }));
    assert_eq!(due_date_of("12/25买礼物", &today), Some(CivilDate { year: 2026, month: 12, day: 25 }));
}

#[test]
fn trailing_slashes_do_not_change_the_endpoint() {
    assert_eq!(chat_completions_url("https://a.com/v1/"), chat_completions_url("https://a.com/v1"));
}

#[test]
fn session_items_cover_every_line_in_first_order() {
    let items = extract_todos_from_session("记得打电话\n需要写周报\n今天天气好\nTODO: 打电话\n要买牛奶");
    assert_eq!(items, vec!["打电话", "写周报", "买牛奶"]);
}

#[test]
fn stored_setting_comes_back_after_restart() {
    let rows = vec![
        ("ai_provider".to_string(), Some("openai".to_string())),
        ("openai_model".to_string(), None),
        ("retention_days".to_string(), Some("30".to_string())),
    ];
    let cfg = init_config(&rows);
    assert_eq!(cfg.get("ai_provider"), Some("openai".to_string()));
    assert_eq!(cfg.get("retention_days"), Some("30".to_string()));
    assert_eq!(cfg.get("openai_model"), default_store().get("openai_model"));
}

#[test]
fn tasks_run_once_per_period_over_a_day_of_ticks() {
    let mut s = new_scheduler();
    let mut daily = 0;
    let mut cleanup = 0;
    let mut todo_at_three = 0;
    for hour in 0..24u32 {
        for minute in 0..60u32 {
            for _ in 0..2 {
                let t = LocalTime { date: CivilDate { year: 2026, month: 7, day: 12 }, hour, minute, weekday: 6 };
                for task in scheduler_tick(&mut s, &t) {
                    match task {
                        ScheduledTask::Analysis(k) if k == "productivity" => daily += 1,
                        ScheduledTask::Analysis(k) if k == "todo" && hour == 3 => todo_at_three += 1,
                        ScheduledTask::Cleanup => cleanup += 1,
                        _ => {}
                    }
                }
            }
        }
    }
    assert_eq!(daily, 1);
    assert_eq!(cleanup, 1);
    assert_eq!(todo_at_three, 1);
}
