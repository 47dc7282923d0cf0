use personal_log_ai::analysis::{
    analysis_route, analysis_since, analysis_text, build_prompt, chat_completions_url, demo_message, minimax_url,
    prompt_for, provider_from_name, reply_or_default, reply_text, request_failure,
    todos_from_analysis, trim_trailing_slashes, AnalysisEvent, AnalysisRoute, Provider,
    EMPTY_REPLY, NO_DATA_REPLY, TRUNCATION_NOTE,
};
use personal_log_ai::config::{default_store, get_config, set_config, ConfigStore};

fn config(pairs: &[(&str, &str)]) -> ConfigStore {
    let mut cache = Some(default_store());
    for (k, v) in pairs {
        set_config(&mut cache, k, v);
    }
    get_config(&cache)
}

fn event(ts: i64, content: Option<&str>) -> AnalysisEvent {
    AnalysisEvent { timestamp: ts, content: content.map(|s| s.to_string()) }
}

#[test]
fn providers_by_name() {
    assert_eq!(provider_from_name("openai"), Provider::OpenAi);
    assert_eq!(provider_from_name("custom"), Provider::Custom);
    assert_eq!(provider_from_name("volcengine"), Provider::Volcengine);
    assert_eq!(provider_from_name("minimax"), Provider::MiniMax);
    assert_eq!(provider_from_name("anything"), Provider::MiniMax);
}

#[test]
fn without_a_key_the_run_is_a_demo() {
    match analysis_route(&config(&[])) {
        AnalysisRoute::Demo(m) => assert_eq!(
            m,
            "⚠️ 演示模式：MiniMax API Key 未配置。\n\n请在「设置 → AI 服务商」中选择服务商并填入 Key 后保存。"
        ),
        _ => panic!("expected a demo"),
    }
    match analysis_route(&config(&[("ai_provider", "volcengine"), ("minimax_api_key", "k")])) {
        AnalysisRoute::Demo(m) => assert!(m.contains("火山方舟 (volcengine)")),
        _ => panic!("expected a demo"),
    }
    assert!(demo_message(Provider::Custom).contains("自定义 (custom)"));
    assert!(demo_message(Provider::OpenAi).starts_with("⚠️ 演示模式：OpenAI API Key"));
}

#[test]
fn openai_style_calls() {
    let cfg = config(&[
        ("ai_provider", "openai"),
        ("openai_api_key", "sk-test"),
        ("openai_base_url", "https://proxy.example.com/v1//"),
    ]);
    match analysis_route(&cfg) {
        AnalysisRoute::Call(q) => {
            assert_eq!(q.provider, Provider::OpenAi);
            assert_eq!(q.api_key, "sk-test");
            assert_eq!(q.url, "https://proxy.example.com/v1/chat/completions");
            assert_eq!(q.model, Some("gpt-4o-mini".to_string()));
        }
        _ => panic!("expected a call"),
    }
    let cfg = config(&[("ai_provider", "volcengine"), ("volcengine_api_key", "ark-1")]);
    match analysis_route(&cfg) {
        AnalysisRoute::Call(q) => {
            assert_eq!(q.url, "https://ark.cn-beijing.volces.com/api/coding/v3/chat/completions");
            assert_eq!(q.model, Some("doubao-pro-4k".to_string()));
        }
        _ => panic!("expected a call"),
    }
    let mut cache: Option<ConfigStore> = None;
    set_config(&mut cache, "ai_provider", "volcengine");
    set_config(&mut cache, "volcengine_api_key", "ark-1");
    match analysis_route(&get_config(&cache)) {
        AnalysisRoute::Call(q) => {
            assert_eq!(q.url, "https://ark.cn-beijing.volces.com/api/v3/chat/completions");
            assert_eq!(q.model, Some("doubao-pro-4k".to_string()));
        }
        _ => panic!("expected a call"),
    }
}

#[test]
fn minimax_calls() {
    let cfg = config(&[("minimax_api_key", "mm"), ("minimax_group_id", "g1")]);
    match analysis_route(&cfg) {
        AnalysisRoute::Call(q) => {
            assert_eq!(q.provider, Provider::MiniMax);
            assert_eq!(q.url, "https://api.minimax.chat/v1/text/chatcompletion_v2?GroupId=g1");
            assert_eq!(q.model, None);
        }
        _ => panic!("expected a call"),
    }
    assert_eq!(minimax_url(""), "https://api.minimax.chat/v1/text/chatcompletion_v2");
}

#[test]
fn urls_lose_trailing_slashes() {
    assert_eq!(trim_trailing_slashes("a///"), "a");
    assert_eq!(trim_trailing_slashes("///"), "");
    assert_eq!(trim_trailing_slashes("a/b"), "a/b");
    assert_eq!(chat_completions_url("https://api.openai.com/v1"), "https://api.openai.com/v1/chat/completions");
}

#[test]
fn prompts_frame_the_data() {
    assert_eq!(build_prompt("other", "data"), "请分析以下数据并给出洞察：\ndata");
    let p = build_prompt("todo", "买牛奶");
    assert!(p.starts_with("你是一个任务管理助手。"));
    assert!(p.contains("用户输入：\n买牛奶\n\n请按以下格式输出"));
    assert!(p.ends_with("- [ ] [任务3]"));
    let p = build_prompt("weekly", "w");
    assert!(p.starts_with("你是一个个人复盘助手。"));
    assert!(p.contains("\nw\n"));
    assert!(build_prompt("productivity", "x").contains("[评分：X/100]"));
    assert!(build_prompt("topic", "x").contains("## 今日核心话题"));
    assert!(build_prompt("writing", "x").contains("## 写作分析"));
    assert_eq!(prompt_for("todo", ""), Err(NO_DATA_REPLY.to_string()));
    assert_eq!(prompt_for("other", "d"), Ok("请分析以下数据并给出洞察：\nd".to_string()));
}

#[test]
fn analysed_text_joins_contents() {
    let events = vec![event(0, Some("a")), event(1, Some("")), event(2, None), event(3, Some("b"))];
    assert_eq!(analysis_text("todo", &events), Some("a\nb\n".to_string()));
    assert_eq!(analysis_text("productivity", &events), Some("a\nb\n".to_string()));
    assert_eq!(
        analysis_text("weekly", &vec![event(0, Some("hi")), event(1_700_000_000_000, Some("yo"))]),
        Some("[01-01 00:00] hi\n[11-14 22:13] yo\n".to_string())
    );
    assert_eq!(analysis_text("weekly", &vec![event(i64::MAX, Some("x"))]), Some("[] x\n".to_string()));
    assert_eq!(analysis_text("todo", &vec![]), Some(String::new()));
}

#[test]
fn analysed_text_reads_a_window_of_events() {
    let events: Vec<AnalysisEvent> = (0..150).map(|i| event(i, Some("x"))).collect();
    assert_eq!(analysis_text("todo", &events).unwrap().len(), 200);
    assert_eq!(analysis_text("other", &events).unwrap().len(), 300);
}

#[test]
fn analysed_text_is_cut_to_the_byte_limit() {
    let long = "x".repeat(3005);
    let cut = analysis_text("todo", &vec![event(0, Some(&long))]).unwrap();
    assert_eq!(cut, format!("{}{}", "x".repeat(3000), TRUNCATION_NOTE));
    let wide = "中".repeat(1001);
    let cut = analysis_text("todo", &vec![event(0, Some(&wide))]).unwrap();
    assert_eq!(cut, format!("{}{}", "中".repeat(1000), TRUNCATION_NOTE));
    assert!(cut.len() <= 3000 + TRUNCATION_NOTE.len());
    let off = format!("a{}", wide);
    assert_eq!(analysis_text("todo", &vec![event(0, Some(&off))]), None);
}

#[test]
fn replies_are_read() {
    assert_eq!(reply_text("{\"choices\":[{\"message\":{\"content\":\"hi\"}}]}").unwrap(), "hi");
    assert_eq!(reply_text("{\"choices\":[]}").unwrap(), EMPTY_REPLY);
    assert_eq!(reply_text("{\"choices\":[{\"message\":{\"content\":5}}]}").unwrap(), EMPTY_REPLY);
    assert!(reply_text("not json").is_err());
    assert_eq!(reply_or_default(None), "AI 分析完成，但返回内容为空");
    assert_eq!(reply_or_default(Some("x".to_string())), "x");
    assert_eq!(
        request_failure(Provider::MiniMax, "500 Internal Server Error", "oops"),
        "MiniMax API 请求失败: 500 Internal Server Error - oops"
    );
    assert_eq!(request_failure(Provider::Volcengine, "401", ""), "OpenAI API 请求失败: 401 - ");
}

#[test]
fn todo_analysis_yields_items() {
    assert_eq!(todos_from_analysis("todo", "TODO: 买牛奶"), vec!["买牛奶", "买牛奶"]);
    assert_eq!(todos_from_analysis("todo", "TODO: 买牛奶\n需要写周报"), vec!["买牛奶", "写周报"]);
    assert!(todos_from_analysis("weekly", "TODO: 买牛奶").is_empty());
    let many: Vec<String> = (0..12).map(|i| format!("TODO: 任务{}", i)).collect();
    let items = todos_from_analysis("todo", &many.join("\n"));
    assert_eq!(items.len(), 10);
    assert_eq!(items[0], "任务0");
    assert_eq!(items[9], "任务9");
}

#[test]
fn analyses_look_back_by_kind() {
    let now = 1_700_000_000_000;
    assert_eq!(analysis_since("weekly", now), now - 7 * 86_400_000);
    assert_eq!(analysis_since("todo", now), now - 3_600_000);
    assert_eq!(analysis_since("writing", now), now - 86_400_000);
}
