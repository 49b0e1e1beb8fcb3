use mail_imap_mcp_rs::errors::AppError;
use mail_imap_mcp_rs::query::escape_imap_quoted;
use mail_imap_mcp_rs::uri::{build_message_raw_uri, build_message_uri, encode_raw_source_base64};
use mail_imap_mcp_rs::validate::{
    parse_and_validate_message_id, validate_account_id, validate_chars, validate_flag,
    validate_flags, validate_mailbox, validate_search_text,
};

#[test]
fn rejects_control_chars_in_search_text() {
    let err = validate_search_text("hello\nworld").expect_err("must fail");
    assert!(err.to_string().contains("control characters"));
}

#[test]
fn rejects_control_chars_in_mailbox() {
    let err = validate_mailbox("INBOX\r").expect_err("must fail");
    assert!(err.to_string().contains("control characters"));
}

#[test]
fn escape_rejects_linebreaks() {
    let err = escape_imap_quoted("a\nb").expect_err("must fail");
    assert!(err.to_string().contains("control characters"));
}

#[test]
fn validate_flag_allows_common_flags() {
    validate_flag("\\Seen").expect("system flag must be valid");
    validate_flag("Important").expect("keyword flag must be valid");
    validate_flag("$MailFlagBit0").expect("keyword flag must be valid");
}

#[test]
fn validate_flag_rejects_injection_like_value() {
    let err = validate_flag("\\Seen) UID FETCH 1:* (BODY[]").expect_err("must fail");
    assert!(err.to_string().contains("invalid flag"));
}

#[test]
fn encodes_raw_source_as_base64() {
    let raw = [0_u8, 159, 255];
    assert_eq!(encode_raw_source_base64(&raw), "AJ//");
}

#[test]
fn encodes_base64_with_padding() {
    assert_eq!(encode_raw_source_base64(b""), "");
    assert_eq!(encode_raw_source_base64(b"f"), "Zg==");
    assert_eq!(encode_raw_source_base64(b"fo"), "Zm8=");
    assert_eq!(encode_raw_source_base64(b"foo"), "Zm9v");
    assert_eq!(encode_raw_source_base64(b"foob"), "Zm9vYg==");
    assert_eq!(encode_raw_source_base64(&[251, 255, 190]), "+/++");
}

#[test]
fn escapes_backslashes_and_quotes() {
    assert_eq!(escape_imap_quoted("plain").expect("valid"), "plain");
    assert_eq!(escape_imap_quoted("a\\b\"c").expect("valid"), "a\\\\b\\\"c");
    assert_eq!(escape_imap_quoted("\"\"").expect("valid"), "\\\"\\\"");
    let err = escape_imap_quoted("").expect_err("must fail");
    assert_eq!(err.to_string(), "invalid input: search text fields must be 1..256 chars");
}

#[test]
fn validates_account_identifiers() {
    validate_account_id("default").expect("valid");
    validate_account_id("Work_1-a").expect("valid");
    validate_account_id(&"a".repeat(64)).expect("valid");
    for bad in ["", &"a".repeat(65)] {
        let err = validate_account_id(bad).expect_err("must fail");
        assert!(matches!(err, AppError::InvalidInput(_)));
        assert_eq!(err.to_string(), "invalid input: account_id must be 1..64 characters");
    }
    for bad in ["a b", "a:b", "é", "a.b"] {
        let err = validate_account_id(bad).expect_err("must fail");
        assert_eq!(err.to_string(), "invalid input: account_id must match [A-Za-z0-9_-]+");
    }
    let err = validate_account_id(&"é".repeat(33)).expect_err("must fail");
    assert_eq!(err.to_string(), "invalid input: account_id must be 1..64 characters");
}

#[test]
fn validates_mailboxes_and_ranges() {
    validate_mailbox("INBOX").expect("valid");
    validate_mailbox("Entwürfe/2024 (alt)").expect("valid");
    let err = validate_mailbox("").expect_err("must fail");
    assert_eq!(err.to_string(), "invalid input: mailbox must be 1..256 characters");
    let err = validate_mailbox(&"m".repeat(257)).expect_err("must fail");
    assert_eq!(err.to_string(), "invalid input: mailbox must be 1..256 characters");
    let err = validate_mailbox("a\u{7f}").expect_err("must fail");
    assert_eq!(err.to_string(), "invalid input: mailbox must not contain control characters");
    validate_chars(1, 1, 50, "limit").expect("valid");
    validate_chars(50, 1, 50, "limit").expect("valid");
    let err = validate_chars(51, 1, 50, "limit").expect_err("must fail");
    assert_eq!(err.to_string(), "invalid input: limit must be in range 1..50");
    let err = validate_chars(0, 1, 50, "limit").expect_err("must fail");
    assert_eq!(err.to_string(), "invalid input: limit must be in range 1..50");
}

#[test]
fn rejects_malformed_flags() {
    for bad in ["", "\\", "a b", "a\"b", "a(b", "a)b", "a{b", "a}b", "a\\b", "\\\\Seen", "a\tb", "a\u{1}"] {
        let err = validate_flag(bad).expect_err("must fail");
        assert!(matches!(err, AppError::InvalidInput(_)));
        assert_eq!(err.to_string(), "invalid input: invalid flag");
    }
    validate_flag(&"f".repeat(64)).expect("valid");
    validate_flag(&"f".repeat(65)).expect_err("must fail");
    let flags = vec!["\\Seen".to_owned(), "bad flag".to_owned(), "(".to_owned()];
    let err = validate_flags(&flags, "add_flags").expect_err("must fail");
    assert_eq!(
        err.to_string(),
        "invalid input: add_flags contains invalid flag 'bad flag'; flags must not contain whitespace, control chars, quotes, parentheses, or braces"
    );
    validate_flags(&Vec::new(), "add_flags").expect("valid");
}

#[test]
fn checks_identities_against_the_account() {
    let id = parse_and_validate_message_id("default", "imap:default:INBOX:1:2").expect("valid");
    assert_eq!(id.mailbox, "INBOX");
    let err = parse_and_validate_message_id("other", "imap:default:INBOX:1:2").expect_err("must fail");
    assert_eq!(err.to_string(), "invalid input: message_id account does not match account_id");
    let err = parse_and_validate_message_id("default", "imap:default:IN\nBOX:1:2").expect_err("must fail");
    assert_eq!(err.to_string(), "invalid input: mailbox must not contain control characters");
    let err = parse_and_validate_message_id("default", "default:INBOX:1:2").expect_err("must fail");
    assert_eq!(err.to_string(), "invalid input: message_id must have at least 5 segments");
}

#[test]
fn builds_resource_identifiers() {
    assert_eq!(
        build_message_uri("default", "INBOX", 123, 42),
        "imap://default/mailbox/INBOX/message/123/42"
    );
    assert_eq!(
        build_message_uri("acct", "My Box/é:1~a_b-c.d", 1, 4294967295),
        "imap://acct/mailbox/My%20Box%2F%C3%A9%3A1~a_b-c.d/message/1/4294967295"
    );
    assert_eq!(
        build_message_raw_uri("default", "INBOX", 0, 0),
        "imap://default/mailbox/INBOX/message/0/0/raw"
    );
}
