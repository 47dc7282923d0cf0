use personal_log_ai::todo::{extract_todo_from_text, extract_todos_from_session, is_imperative_sentence};
use regex::Regex;

#[test]
fn test_extract_todo_basic() {
    assert_eq!(extract_todo_from_text("TODO: 买牛奶"), Some("买牛奶".to_string()));
    assert_eq!(extract_todo_from_text("待办：写报告"), Some("写报告".to_string()));
}

#[test]
fn test_extract_todo_need_patterns() {
    assert_eq!(extract_todo_from_text("需要完成项目文档"), Some("完成项目文档".to_string()));
    assert_eq!(extract_todo_from_text("必须提交申请表"), Some("提交申请表".to_string()));
    assert_eq!(extract_todo_from_text("应该回复邮件"), Some("回复邮件".to_string()));
    assert_eq!(extract_todo_from_text("得去超市"), Some("去超市".to_string()));
    assert_eq!(extract_todo_from_text("要写周报"), Some("写周报".to_string()));
}

#[test]
fn test_extract_todo_planning_patterns() {
    assert_eq!(extract_todo_from_text("准备面试"), Some("面试".to_string()));
    assert_eq!(extract_todo_from_text("计划去旅行"), Some("去旅行".to_string()));
    assert_eq!(extract_todo_from_text("打算学Rust"), Some("学Rust".to_string()));
    assert_eq!(extract_todo_from_text("想买新书"), Some("买新书".to_string()));
}

#[test]
fn test_extract_todo_imperative_patterns() {
    assert_eq!(extract_todo_from_text("提交代码"), Some("代码".to_string()));
    assert_eq!(extract_todo_from_text("发送邮件给客户"), Some("邮件给客户".to_string()));
    assert_eq!(extract_todo_from_text("检查部署状态"), Some("部署状态".to_string()));
    assert_eq!(extract_todo_from_text("购买办公用品"), Some("办公用品".to_string()));
    assert_eq!(extract_todo_from_text("联系供应商"), Some("供应商".to_string()));
}

#[test]
fn test_extract_todo_reminder_patterns() {
    assert_eq!(extract_todo_from_text("别忘了开会"), Some("开会".to_string()));
    assert_eq!(extract_todo_from_text("不要忘记交报告"), Some("交报告".to_string()));
    assert_eq!(extract_todo_from_text("记着买菜"), Some("买菜".to_string()));
    assert_eq!(extract_todo_from_text("记住密码"), Some("密码".to_string()));
}

#[test]
fn test_extract_todo_time_based_patterns() {
    assert_eq!(extract_todo_from_text("明天需要交报告"), Some("交报告".to_string()));
    assert_eq!(extract_todo_from_text("今天要完成文档"), Some("完成文档".to_string()));
    assert_eq!(extract_todo_from_text("下周得去开会"), Some("去开会".to_string()));
    assert_eq!(extract_todo_from_text("这周要提交总结"), Some("提交总结".to_string()));
}

#[test]
fn test_extract_todo_too_short() {
    assert_eq!(extract_todo_from_text("好"), None);
    assert_eq!(extract_todo_from_text("ab"), None);
}

#[test]
fn test_extract_todo_too_long() {
    let long = "a".repeat(201);
    assert_eq!(extract_todo_from_text(&long), None);
}

#[test]
fn test_extract_todos_from_session() {
    let session = "今天写代码\nTODO: 测试功能\n随便一行\n需要修复bug\n别忘了买咖啡";
    let todos = extract_todos_from_session(session);
    assert_eq!(todos.len(), 3);
    assert!(todos.contains(&"测试功能".to_string()));
    assert!(todos.contains(&"修复bug".to_string()));
    assert!(todos.contains(&"买咖啡".to_string()));
}

#[test]
fn test_extract_todos_from_session_dedup() {
    let session = "TODO: 买牛奶\nTODO: 买牛奶\n需要买牛奶";
    let todos = extract_todos_from_session(session);
    assert!(todos.contains(&"买牛奶".to_string()));
    let milk_count = todos.iter().filter(|t| t == &"买牛奶").count();
    assert_eq!(milk_count, 1);
}

#[test]
fn test_extract_todos_empty() {
    let todos = extract_todos_from_session("");
    assert!(todos.is_empty());

    let todos = extract_todos_from_session("随便写的\n不是待办\n只是记录");
    assert!(todos.is_empty());
}

#[test]
fn test_is_imperative() {
    assert!(is_imperative_sentence("请帮我买个东西"));
    assert!(!is_imperative_sentence("今天天气不错"));
}

#[test]
fn extract_todo_trims_surrounding_whitespace() {
    assert_eq!(extract_todo_from_text("  \t记得 买菜  "), Some("买菜".to_string()));
    assert_eq!(extract_todo_from_text("TODO :\u{3000}写周报"), Some("写周报".to_string()));
}

#[test]
fn extract_todo_alternative_order() {
    // "记得" is tried before "记得要", so the tail keeps "要".
    assert_eq!(extract_todo_from_text("记得要买票"), Some("要买票".to_string()));
    // "想要" is tried before "想".
    assert_eq!(extract_todo_from_text("想要买票"), Some("买票".to_string()));
}

#[test]
fn extract_todo_tail_with_line_feed_falls_to_imperative() {
    // The pattern tail cannot cross a line feed; the imperative rule takes the whole text.
    assert_eq!(extract_todo_from_text("提交报告\n和代码"), Some("提交报告\n和代码".to_string()));
    // Whitespace after the trigger word may include a line feed.
    assert_eq!(extract_todo_from_text("需要\n做"), Some("做".to_string()));
}

#[test]
fn extract_todo_byte_length_limits() {
    // 200 bytes pass, 201 do not.
    let ok = format!("请{}", "a".repeat(197));
    assert_eq!(ok.len(), 200);
    assert_eq!(extract_todo_from_text(&ok), Some(ok.clone()));
    let too_long = format!("请{}", "a".repeat(198));
    assert_eq!(extract_todo_from_text(&too_long), None);
}

#[test]
fn imperative_needs_more_than_three_extra_bytes() {
    assert!(!is_imperative_sentence("请吃"));
    assert!(is_imperative_sentence("请吃饭"));
    assert!(!is_imperative_sentence("去abc"));
    assert!(is_imperative_sentence("去abcd"));
}

#[test]
fn session_lines_strip_carriage_returns() {
    let todos = extract_todos_from_session("要买菜\r\n要买菜\n\n要做饭\n");
    assert_eq!(todos, vec!["买菜".to_string(), "做饭".to_string()]);
}

/// The to-do patterns written as regular expressions, applied as a regular
/// expression engine applies them; used to cross-check the matcher.
fn todo_regexes() -> Vec<Regex> {
    let patterns = [
        r"^(TODO|todo|待办|TODO:)\s*[:：]\s*(.+)$",
        r"^(记得|记得要)\s*(.+)$",
        r"^(需要|必须|应该|得|要)\s*(.+)$",
        r"^(准备|计划|打算|想要|想)\s*(.+)$",
        r"^(提交|发送|回复|检查|确认|完成|处理|解决|安排|预约|订购|购买|联系|通知|提醒|整理)\s*(.+)$",
        r"^(别忘了|不要忘记|不要忘了|记着|记住)\s*(.+)$",
        r"^(这周|本周|下周|这月|下月|今天|明天|后天)\s*(要|需要|得|去|做)\s*(.+)$",
        r"^(需要|必须|应该|得)\s*(.+)(?:完成|做|处理|解决)$",
        r"^(明天要|今天要|下周要|这周要)\s*(.+)$",
    ];
    patterns.iter().map(|p| Regex::new(p).unwrap()).collect()
}

fn regex_todo(res: &[Regex], text: &str) -> Option<String> {
    let trimmed = text.trim();
    if trimmed.len() < 3 || trimmed.len() > 200 {
        return None;
    }
    for re in res.iter() {
        if let Some(caps) = re.captures(trimmed) {
            if let Some(m) = caps.get(3) {
                return Some(m.as_str().trim().to_string());
            }
            if let Some(m) = caps.get(2) {
                return Some(m.as_str().trim().to_string());
            }
        }
    }
    let starts = [
        "请", "去", "把", "将", "给", "帮", "联系", "通知", "提醒", "准备", "整理", "提交", "发送",
        "回复", "检查", "确认", "完成", "处理", "解决", "安排", "预约", "订购", "购买",
    ];
    for st in starts.iter() {
        if trimmed.starts_with(st) && trimmed.len() > st.len() + 3 {
            return Some(trimmed.to_string());
        }
    }
    None
}

#[test]
fn extract_todo_agrees_with_regular_expressions() {
    let pieces = [
        "TODO", "todo", "待办", ":", "：", " ", "\n", "\t", "\u{3000}", "记得", "要", "需要", "得",
        "想", "想要", "提交", "别忘了", "明天", "下周", "这周", "去", "做", "完成", "处理", "请",
        "买", "a", "报告", "\r",
    ];
    let res = todo_regexes();
    let mut count = 0;
    let n = pieces.len();
    for a in 0..n {
        for b in 0..n {
            for c in 0..n {
                for d in [0usize, 25] {
                    let text = format!("{}{}{}{}", pieces[a], pieces[b], pieces[c], pieces[d]);
                    assert_eq!(extract_todo_from_text(&text), regex_todo(&res, &text), "input {:?}", text);
                    count += 1;
                }
            }
        }
    }
    assert!(count > 1000);
}
