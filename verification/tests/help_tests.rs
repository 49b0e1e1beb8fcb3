use mail_imap_mcp_rs::help::{
    build_help_output, discover_account_sections, is_secret_key, redact_value, should_print_help,
};

fn args_of(list: &[&str]) -> Vec<String> {
    list.iter().map(|a| (*a).to_owned()).collect()
}

fn env_of(pairs: &[(&str, &str)]) -> Vec<(String, String)> {
    pairs.iter().map(|(k, v)| ((*k).to_owned(), (*v).to_owned())).collect()
}

#[test]
fn detects_short_and_long_help_flags() {
    assert!(should_print_help(&args_of(&["-h"])));
    assert!(should_print_help(&args_of(&["--help"])));
    assert!(should_print_help(&args_of(&["--verbose", "-h"])));
    assert!(!should_print_help(&args_of(&["--verbose"])));
}

#[test]
fn discovers_account_sections_from_env_like_keys() {
    let env_map = env_of(&[
        ("MAIL_IMAP_DEFAULT_HOST", "imap.example.com"),
        ("MAIL_IMAP_WORK_USER", "work@example.com"),
        ("MAIL_IMAP_WORK_PASS", "secret"),
        ("MAIL_IMAP_WRITE_ENABLED", "true"),
    ]);

    assert_eq!(
        discover_account_sections(&env_map),
        vec!["DEFAULT".to_owned(), "WORK".to_owned()]
    );
}

#[test]
fn redacts_secret_values_and_marks_unset() {
    assert_eq!(
        redact_value("MAIL_IMAP_DEFAULT_PASS", Some("abc")),
        "<redacted>"
    );
    assert_eq!(redact_value("MAIL_IMAP_DEFAULT_HOST", Some("imap")), "imap");
    assert_eq!(redact_value("MAIL_IMAP_DEFAULT_USER", None), "<unset>");
}

#[test]
fn detects_secret_keys_case_insensitively() {
    assert!(is_secret_key("mail_imap_default_pass"));
    assert!(is_secret_key("MAIL_IMAP_API_TOKEN"));
    assert!(!is_secret_key("MAIL_IMAP_DEFAULT_HOST"));
}

#[test]
fn help_output_includes_policy_defaults_and_redaction() {
    let env_map = env_of(&[
        ("MAIL_IMAP_DEFAULT_HOST", "imap.example.com"),
        ("MAIL_IMAP_DEFAULT_USER", "user@example.com"),
        ("MAIL_IMAP_DEFAULT_PASS", "top-secret"),
    ]);

    let help = build_help_output(&env_map);
    assert!(help.contains("Global policy defaults"));
    assert!(help.contains("MAIL_IMAP_WRITE_ENABLED=false"));
    assert!(help.contains("Send/write gate policy"));
    assert!(help.contains("MAIL_IMAP_DEFAULT_PASS=<redacted>"));
}

#[test]
fn help_output_lists_every_variable_of_a_section() {
    let env_map = env_of(&[("MAIL_IMAP_B_HOST", "h"), ("MAIL_IMAP_B_PORT", ""), ("MAIL_IMAP_A_USER", "u")]);
    let help = build_help_output(&env_map);
    assert!(help.contains(
        "  [A]\n    MAIL_IMAP_A_HOST=<unset>\n    MAIL_IMAP_A_USER=u\n    MAIL_IMAP_A_PASS=<unset>\n    MAIL_IMAP_A_PORT=<unset>\n    MAIL_IMAP_A_SECURE=<unset>\n  [B]\n    MAIL_IMAP_B_HOST=h\n    MAIL_IMAP_B_USER=<unset>\n    MAIL_IMAP_B_PASS=<unset>\n    MAIL_IMAP_B_PORT=<empty>\n    MAIL_IMAP_B_SECURE=<unset>\n\nGlobal policy defaults\n"
    ));
    assert!(help.starts_with("mail-imap-mcp-rs\nSecure IMAP MCP server over stdio\n\nUsage:\n"));
    let none = build_help_output(&Vec::new());
    assert!(none.contains("(from current environment)\n  (none discovered)\n\nGlobal policy defaults\n"));
}

#[test]
fn redacts_empty_and_secret_values() {
    assert_eq!(redact_value("MAIL_IMAP_DEFAULT_PASS", Some("")), "<empty>");
    assert_eq!(redact_value("MAIL_IMAP_DEFAULT_HOST", Some("")), "<empty>");
    assert_eq!(redact_value("my_secret", Some("x")), "<redacted>");
    assert_eq!(redact_value("MAIL_IMAP_DEFAULT_PASS", None), "<unset>");
}

#[test]
fn ignores_keys_without_a_section() {
    let env_map = env_of(&[
        ("MAIL_IMAP__HOST", "x"),
        ("MAIL_IMAP_HOST", "x"),
        ("OTHER_WORK_HOST", "x"),
        ("MAIL_IMAP_Z_SECURE", "x"),
        ("MAIL_IMAP_Z_HOST", "x"),
        ("MAIL_IMAP_Y_PASS_HOST", "x"),
    ]);
    assert_eq!(
        discover_account_sections(&env_map),
        vec!["Y_PASS".to_owned(), "Z".to_owned()]
    );
}
