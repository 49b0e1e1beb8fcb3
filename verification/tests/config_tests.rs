use mail_imap_mcp_rs::config::{
    load_account, parse_bool_value, sanitize_segment, EnvValue, EnvVar, ServerConfig,
};
use mail_imap_mcp_rs::errors::AppError;

fn var(key: &str, value: &str) -> EnvVar {
    EnvVar { key: key.to_owned(), value: EnvValue::Text(value.to_owned()) }
}

#[test]
fn parse_bool_value_accepts_common_truthy_and_falsy_values() {
    for truthy in ["1", "true", "TRUE", " yes ", "Y", "on"] {
        assert_eq!(parse_bool_value(truthy), Some(true));
    }

    for falsy in ["0", "false", "FALSE", " no ", "N", "off"] {
        assert_eq!(parse_bool_value(falsy), Some(false));
    }
}

#[test]
fn parse_bool_value_rejects_unrecognized_values() {
    for invalid in ["", "2", "maybe", "enabled", "disabled"] {
        assert_eq!(parse_bool_value(invalid), None);
    }
}

#[test]
fn sanitizes_segments() {
    assert_eq!(sanitize_segment("work"), "WORK");
    assert_eq!(sanitize_segment("_my-box_"), "MY_BOX");
    assert_eq!(sanitize_segment("a.b"), "A_B");
    assert_eq!(sanitize_segment("___"), "");
    assert_eq!(sanitize_segment("é1"), "1");
}

#[test]
fn loads_default_account_with_defaults() {
    let env = vec![
        var("MAIL_IMAP_DEFAULT_HOST", "imap.example.com"),
        var("MAIL_IMAP_DEFAULT_USER", "user@example.com"),
        var("MAIL_IMAP_DEFAULT_PASS", "secret"),
    ];
    let config = ServerConfig::load_from_env(&env).expect("loads");
    assert_eq!(config.accounts.len(), 1);
    let account = &config.accounts[0];
    assert_eq!(account.account_id, "default");
    assert_eq!(account.host, "imap.example.com");
    assert_eq!(account.user, "user@example.com");
    assert_eq!(account.pass.expose(), "secret");
    assert_eq!(account.port, 993);
    assert!(account.secure);
    assert!(!config.write_enabled);
    assert_eq!(config.connect_timeout_ms, 30_000);
    assert_eq!(config.greeting_timeout_ms, 15_000);
    assert_eq!(config.socket_timeout_ms, 300_000);
    assert_eq!(config.cursor_ttl_seconds, 600);
    assert_eq!(config.cursor_max_entries, 512);
    assert!(config.get_account("default").is_ok());
    let err = config.get_account("other").err().expect("unknown");
    assert_eq!(err.to_string(), "not found: account 'other' is not configured");
}

#[test]
fn loads_accounts_in_the_order_of_their_identifiers() {
    let env = vec![
        var("MAIL_IMAP_WORK_HOST", "w.example.com"),
        var("MAIL_IMAP_WORK_USER", "w"),
        var("MAIL_IMAP_WORK_PASS", "p"),
        var("MAIL_IMAP_WORK_PORT", "1993"),
        var("MAIL_IMAP_A1_HOST", "a.example.com"),
        var("MAIL_IMAP_A1_USER", "a"),
        var("MAIL_IMAP_A1_PASS", "p"),
        var("MAIL_IMAP_A1_SECURE", "no"),
        var("MAIL_IMAP__X_HOST", "ignored.example.com"),
        var("MAIL_IMAP_X_HOST", "x.example.com"),
        var("MAIL_IMAP_X_USER", "x"),
        var("MAIL_IMAP_X_PASS", "p"),
        var("MAIL_IMAP_WRITE_ENABLED", "yes"),
        var("MAIL_IMAP_CURSOR_MAX_ENTRIES", "7"),
    ];
    let config = ServerConfig::load_from_env(&env).expect("loads");
    let ids: Vec<&str> = config.accounts.iter().map(|a| a.account_id.as_str()).collect();
    assert_eq!(ids, vec!["_x", "a1", "work", "x"]);
    assert_eq!(config.accounts[2].port, 1993);
    assert!(!config.accounts[1].secure);
    assert_eq!(config.accounts[0].host, "x.example.com");
    assert_eq!(config.accounts[3].host, "x.example.com");
    assert!(config.write_enabled);
    assert_eq!(config.cursor_max_entries, 7);
}

#[test]
fn reports_missing_and_malformed_variables() {
    let err = ServerConfig::load_from_env(&Vec::new()).err().expect("fails");
    assert!(matches!(err, AppError::InvalidInput(_)));
    assert_eq!(
        err.to_string(),
        "invalid input: missing required environment variable MAIL_IMAP_DEFAULT_HOST"
    );
    let env = vec![
        var("MAIL_IMAP_DEFAULT_HOST", "h"),
        var("MAIL_IMAP_DEFAULT_USER", "   "),
        var("MAIL_IMAP_DEFAULT_PASS", "p"),
    ];
    let err = load_account(&env, "DEFAULT").err().expect("fails");
    assert_eq!(
        err.to_string(),
        "invalid input: missing required environment variable MAIL_IMAP_DEFAULT_USER"
    );
    let env = vec![
        var("MAIL_IMAP_DEFAULT_HOST", "h"),
        var("MAIL_IMAP_DEFAULT_USER", "u"),
        var("MAIL_IMAP_DEFAULT_PASS", "p"),
        var("MAIL_IMAP_DEFAULT_PORT", "70000"),
    ];
    let err = load_account(&env, "DEFAULT").err().expect("fails");
    assert_eq!(
        err.to_string(),
        "invalid input: invalid u16 environment variable MAIL_IMAP_DEFAULT_PORT: '70000'"
    );
    let env = vec![
        var("MAIL_IMAP_DEFAULT_HOST", "h"),
        var("MAIL_IMAP_DEFAULT_USER", "u"),
        var("MAIL_IMAP_DEFAULT_PASS", "p"),
        var("MAIL_IMAP_WRITE_ENABLED", "perhaps"),
    ];
    let err = ServerConfig::load_from_env(&env).err().expect("fails");
    assert_eq!(
        err.to_string(),
        "invalid input: invalid boolean environment variable MAIL_IMAP_WRITE_ENABLED: 'perhaps'"
    );
    let env = vec![
        var("MAIL_IMAP_DEFAULT_HOST", "h"),
        var("MAIL_IMAP_DEFAULT_USER", "u"),
        var("MAIL_IMAP_DEFAULT_PASS", "p"),
        EnvVar { key: "MAIL_IMAP_SOCKET_TIMEOUT_MS".to_owned(), value: EnvValue::NotUnicode },
    ];
    let err = ServerConfig::load_from_env(&env).err().expect("fails");
    assert_eq!(
        err.to_string(),
        "invalid input: environment variable MAIL_IMAP_SOCKET_TIMEOUT_MS contains non-unicode data"
    );
}
