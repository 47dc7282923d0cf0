use personal_log_ai::desktop::{
    check_screen_recording_permission, has_ipc_hook, ime_listed, ime_status_label, install_report,
    schema_names, shortcut_action, squirrel_binary, squirrel_location, tray_action, TrayAction,
};

#[test]
fn tray_menu_entries() {
    assert_eq!(tray_action("show"), TrayAction::ShowWindow);
    assert_eq!(tray_action("hide"), TrayAction::HideWindow);
    assert_eq!(tray_action("pause"), TrayAction::Pause);
    assert_eq!(tray_action("resume"), TrayAction::Resume);
    assert_eq!(tray_action("quit"), TrayAction::Quit);
    assert_eq!(tray_action("other"), TrayAction::Ignore);
    assert_eq!(shortcut_action(true), TrayAction::HideWindow);
    assert_eq!(shortcut_action(false), TrayAction::ShowWindow);
}

#[test]
fn input_method_status() {
    assert_eq!(ime_status_label(true, false), "enabled");
    assert_eq!(ime_status_label(false, true), "installed");
    assert_eq!(ime_status_label(false, false), "not_installed");
    assert!(ime_listed("( { \"Bundle ID\" = \"com.example.inputmethod.LogInputIME\"; } )"));
    assert!(!ime_listed("( { \"Bundle ID\" = \"com.apple.keylayout.ABC\"; } )"));
    assert!(has_ipc_hook("foo\n/tmp/personal-log-ai-ime.sock\nbar"));
    assert!(!has_ipc_hook("foo"));
    assert!(check_screen_recording_permission());
}

#[test]
fn install_reports() {
    let r = install_report(true, false);
    assert!(r.success && r.installed);
    assert_eq!(r.message, "输入法已安装");
    let r = install_report(false, true);
    assert!(r.success && r.installed);
    assert_eq!(r.message, "输入法安装成功，请在系统设置中启用");
    let r = install_report(false, false);
    assert!(!r.success && !r.installed);
    assert_eq!(r.message, "未找到内嵌输入法资源，请手动安装 LogInputIME.app");
}

#[test]
fn squirrel_paths() {
    assert_eq!(squirrel_location(true, true, "/u"), Some("/Library/Input Methods/Squirrel.app".to_string()));
    assert_eq!(squirrel_location(false, true, "/u"), Some("/u".to_string()));
    assert_eq!(squirrel_location(false, false, "/u"), None);
    assert_eq!(
        squirrel_binary(true, false, "/u/bin"),
        Ok("/Library/Input Methods/Squirrel.app/Contents/MacOS/Squirrel".to_string())
    );
    assert_eq!(squirrel_binary(false, true, "/u/bin"), Ok("/u/bin".to_string()));
    assert_eq!(squirrel_binary(false, false, "/u/bin"), Err("Squirrel 未安装".to_string()));
}

#[test]
fn schemas_from_file_names() {
    let names = vec![
        "luna_pinyin.schema.yaml".to_string(),
        "default.yaml".to_string(),
        "a.schema.yaml.schema.yaml".to_string(),
        ".schema.yaml".to_string(),
        "wubi98.schema.yaml".to_string(),
    ];
    assert_eq!(schema_names(&names), vec!["luna_pinyin", "a", "", "wubi98"]);
    assert!(schema_names(&vec![]).is_empty());
}
