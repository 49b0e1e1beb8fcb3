use mail_imap_mcp_rs::errors::AppError;
use mail_imap_mcp_rs::message_id::MessageId;

#[test]
fn parses_and_encodes_standard_message_id() {
    let id = MessageId::parse("imap:default:INBOX:123:42").expect("parse succeeds");
    assert_eq!(id.account_id, "default");
    assert_eq!(id.mailbox, "INBOX");
    assert_eq!(id.uidvalidity, 123);
    assert_eq!(id.uid, 42);
    assert_eq!(id.encode(), "imap:default:INBOX:123:42");
}

#[test]
fn parses_mailbox_with_colons() {
    let id = MessageId::parse("imap:acct:Projects:2026:Q1:999:7").expect("parse succeeds");
    assert_eq!(id.account_id, "acct");
    assert_eq!(id.mailbox, "Projects:2026:Q1");
    assert_eq!(id.uidvalidity, 999);
    assert_eq!(id.uid, 7);
}

#[test]
fn rejects_invalid_prefix() {
    let err = MessageId::parse("smtp:default:INBOX:123:1").expect_err("must fail");
    assert!(err.to_string().contains("must start with 'imap'"));
}

#[test]
fn round_trips_identities() {
    for (account, mailbox, epoch, uid) in [
        ("default", "INBOX", 0u32, 0u32),
        ("a", ":", 1, 2),
        ("", "Sent:Items", u32::MAX, u32::MAX),
        ("work-1", "Archive/2024", 4294967295, 10),
    ] {
        let id = MessageId {
            account_id: account.to_owned(),
            mailbox: mailbox.to_owned(),
            uidvalidity: epoch,
            uid,
        };
        let back = MessageId::parse(&id.encode()).expect("round trip");
        assert_eq!(back.account_id, account);
        assert_eq!(back.mailbox, mailbox);
        assert_eq!(back.uidvalidity, epoch);
        assert_eq!(back.uid, uid);
    }
}

#[test]
fn rejects_too_few_segments() {
    for raw in ["", "imap", "imap:a:b:1", "imap:a:1:2", "a:b:c"] {
        let err = MessageId::parse(raw).expect_err("must fail");
        assert!(matches!(err, AppError::InvalidInput(_)));
        assert_eq!(err.to_string(), "invalid input: message_id must have at least 5 segments");
    }
}

#[test]
fn rejects_bad_numbers() {
    let err = MessageId::parse("imap:a:INBOX:1:x").expect_err("must fail");
    assert_eq!(err.to_string(), "invalid input: invalid uid in message_id");
    let err = MessageId::parse("imap:a:INBOX:x:1").expect_err("must fail");
    assert_eq!(err.to_string(), "invalid input: invalid uidvalidity in message_id");
    let err = MessageId::parse("imap:a:INBOX:1:4294967296").expect_err("must fail");
    assert_eq!(err.to_string(), "invalid input: invalid uid in message_id");
    let err = MessageId::parse("imap:a:INBOX:1:-1").expect_err("must fail");
    assert_eq!(err.to_string(), "invalid input: invalid uid in message_id");
    let err = MessageId::parse("imap:a:INBOX:1:").expect_err("must fail");
    assert_eq!(err.to_string(), "invalid input: invalid uid in message_id");
}

#[test]
fn rejects_empty_mailbox() {
    let err = MessageId::parse("imap:a::1:2").expect_err("must fail");
    assert_eq!(err.to_string(), "invalid input: message_id mailbox cannot be empty");
}

#[test]
fn reads_numbers_only_as_they_are_written() {
    for text in ["0", "7", "10", "4294967295"] {
        let raw = format!("imap:a:INBOX:{}:{}", text, text);
        let id = MessageId::parse(&raw).expect("parse succeeds");
        assert_eq!(id.uid, text.parse::<u32>().unwrap());
        assert_eq!(id.uidvalidity, text.parse::<u32>().unwrap());
        assert_eq!(id.encode(), raw);
    }
    let not_shortest = ["007", "00", "+7", "+0", "+0004294967295"];
    let no_numbers = ["", "+", "-0", " 1", "1 ", "1_0", "0x10", "4294967296", "++1"];
    for text in not_shortest.iter().chain(no_numbers.iter()) {
        let err = MessageId::parse(&format!("imap:a:INBOX:1:{}", text)).expect_err("must fail");
        assert_eq!(err.to_string(), "invalid input: invalid uid in message_id");
        let err = MessageId::parse(&format!("imap:a:INBOX:{}:1", text)).expect_err("must fail");
        assert_eq!(err.to_string(), "invalid input: invalid uidvalidity in message_id");
    }
}

#[test]
fn every_text_that_is_read_is_written_back() {
    for raw in [
        "imap:acct:INBOX:1:2",
        "imap::x:0:0",
        "imap:acct:Projects:2026:Q1:999:7",
        "imap:a:::1:2",
        "imap:a:b:4294967295:4294967295",
    ] {
        let id = MessageId::parse(raw).expect("parse succeeds");
        assert_eq!(id.encode(), raw);
    }
}
