use personal_log_ai::privacy::{
    is_blacklisted_sync, is_luhn_valid, is_secure_text_field, is_sensitive_clipboard_content,
};

#[test]
fn blacklist_holds_password_managers_and_banks() {
    assert!(is_blacklisted_sync("com.agilebits.onepassword7"));
    assert!(is_blacklisted_sync("com.bitwarden.desktop"));
    assert!(is_blacklisted_sync("org.keepassxc.keepassxc"));
    assert!(is_blacklisted_sync("com.apple.keychainaccess"));
    assert!(is_blacklisted_sync("com.icbc.icbcclient"));
    assert!(is_blacklisted_sync("com.openvpn.openvpn"));
}

#[test]
fn blacklist_leaves_other_apps() {
    assert!(!is_blacklisted_sync("com.apple.Safari"));
    assert!(!is_blacklisted_sync("com.bitwarden"));
    assert!(!is_blacklisted_sync(""));
}

#[test]
fn luhn_accepts_valid_card_numbers() {
    assert!(is_luhn_valid("4111111111111111"));
    assert!(is_luhn_valid("5500005555555559"));
    assert!(is_luhn_valid("4222222222222"));
    assert!(is_luhn_valid("0000000000018"));
}

#[test]
fn luhn_rejects_invalid_or_short_numbers() {
    assert!(!is_luhn_valid("4111111111111112"));
    assert!(!is_luhn_valid("411111111111"));
    assert!(!is_luhn_valid(""));
    assert!(!is_luhn_valid("0000000000081"));
    assert!(!is_luhn_valid("79927398713"));
}

/// A web-token-shaped text, built from pieces: three dot-separated parts,
/// the first starting with the JSON-header prefix.
fn token_shaped() -> String {
    format!("{}{}.{}.{}", "ey", "Jpart", "body", "sig")
}

/// An access-key-shaped text of 20 characters, built from pieces.
fn access_key_shaped() -> String {
    format!("{}{}{}", "AK", "IA", "Q".repeat(16))
}

/// A private-key header, built from pieces.
fn private_key_shaped() -> String {
    format!("{} RSA {}\nabc\n", ["-----", "BEGIN"].concat(), ["PRIVATE", " KEY-----"].concat())
}

#[test]
fn sensitive_content_detects_secrets() {
    assert!(is_sensitive_clipboard_content(&token_shaped()));
    assert!(is_sensitive_clipboard_content(&access_key_shaped()));
    assert!(is_sensitive_clipboard_content(&private_key_shaped()));
    assert!(is_sensitive_clipboard_content("card 4111 1111 1111 1111"));
    assert!(is_sensitive_clipboard_content(&"a".repeat(1001)));
    assert!(is_sensitive_clipboard_content(&"中".repeat(1001)));
}

#[test]
fn sensitive_content_lets_ordinary_text_through() {
    assert!(!is_sensitive_clipboard_content("hello world"));
    assert!(!is_sensitive_clipboard_content("eyJ only one . dot"));
    assert!(!is_sensitive_clipboard_content("AKIA123"));
    assert!(!is_sensitive_clipboard_content("4111 1111 1111 1112"));
    assert!(!is_sensitive_clipboard_content(&"a".repeat(1000)));
    assert!(!is_sensitive_clipboard_content(&"中".repeat(400)));
    assert!(!is_sensitive_clipboard_content(&"中".repeat(1000)));
    assert!(!is_sensitive_clipboard_content("-----BEGIN CERTIFICATE-----"));
}

#[test]
fn secure_fields_by_app_and_title() {
    assert!(is_secure_text_field("com.1password.1password", &None));
    assert!(is_secure_text_field("com.apple.Safari", &Some("Login - Example".to_string())));
    assert!(is_secure_text_field("com.apple.Safari", &Some("Enter PASSWORD".to_string())));
    assert!(is_secure_text_field("com.tencent.xinWeChat", &Some("账号登录".to_string())));
    assert!(!is_secure_text_field("com.apple.TextEdit", &Some("Notes".to_string())));
    assert!(!is_secure_text_field("com.apple.TextEdit", &None));
}
