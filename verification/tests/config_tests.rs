use personal_log_ai::config::{
    config_flag, default_store, get_config, init_config, retention_days, session_timeout_secs,
    set_config, text_setting, ConfigStore,
};

fn value(store: &ConfigStore, key: &str) -> Option<String> {
    store.get(key)
}

#[test]
fn defaults_are_present() {
    let cfg = get_config(&None);
    assert_eq!(value(&cfg, "ai_provider"), Some("minimax".to_string()));
    assert_eq!(value(&cfg, "openai_base_url"), Some("https://api.openai.com/v1".to_string()));
    assert_eq!(
        value(&cfg, "volcengine_base_url"),
        Some("https://ark.cn-beijing.volces.com/api/coding/v3".to_string())
    );
    assert_eq!(value(&cfg, "data_retention_days"), Some("90".to_string()));
    assert_eq!(value(&cfg, "session_timeout"), Some("60".to_string()));
    assert_eq!(value(&cfg, "enable_mouse"), Some("true".to_string()));
    assert_eq!(value(&cfg, "missing"), None);
    assert_eq!(cfg.entries().len(), 14);
}

#[test]
fn stored_rows_override_defaults() {
    let rows = vec![
        ("ai_provider".to_string(), Some("openai".to_string())),
        ("openai_model".to_string(), None),
        ("backend_ime".to_string(), Some("squirrel".to_string())),
    ];
    let cfg = init_config(&rows);
    assert_eq!(value(&cfg, "ai_provider"), Some("openai".to_string()));
    assert_eq!(value(&cfg, "openai_model"), Some("gpt-4o-mini".to_string()));
    assert_eq!(value(&cfg, "backend_ime"), Some("squirrel".to_string()));
}

#[test]
fn read_after_write() {
    let mut cache = Some(default_store());
    set_config(&mut cache, "openai_model", "gpt-4o");
    let cfg = get_config(&cache);
    assert_eq!(value(&cfg, "openai_model"), Some("gpt-4o".to_string()));
    assert_eq!(value(&cfg, "ai_provider"), Some("minimax".to_string()));
    set_config(&mut cache, "openai_model", "o1");
    assert_eq!(value(&get_config(&cache), "openai_model"), Some("o1".to_string()));
}

#[test]
fn write_to_empty_cache_forgets_defaults() {
    let mut cache: Option<ConfigStore> = None;
    set_config(&mut cache, "backend_ime", "rime");
    let cfg = get_config(&cache);
    assert_eq!(value(&cfg, "backend_ime"), Some("rime".to_string()));
    assert_eq!(value(&cfg, "ai_provider"), None);
}

#[test]
fn numeric_and_flag_settings() {
    let mut cache = Some(default_store());
    let cfg = get_config(&cache);
    assert_eq!(session_timeout_secs(&cfg), 60);
    assert_eq!(retention_days(&cfg), 90);
    assert!(config_flag(&cfg, "enable_clipboard"));
    assert!(config_flag(&cfg, "no_such_flag"));
    set_config(&mut cache, "session_timeout", "abc");
    set_config(&mut cache, "data_retention_days", "30");
    set_config(&mut cache, "enable_mouse", "false");
    let cfg = get_config(&cache);
    assert_eq!(session_timeout_secs(&cfg), 60);
    assert_eq!(retention_days(&cfg), 30);
    assert!(!config_flag(&cfg, "enable_mouse"));
    assert_eq!(text_setting(&cfg, "nothing", "dflt"), "dflt");
}
