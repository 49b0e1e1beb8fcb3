use mail_imap_mcp_rs::dates::{day_after, days_before, imap_date, read_day, today, Ymd};
use mail_imap_mcp_rs::models::{
    default_account_id, default_body_max_chars, default_limit, default_raw_max_bytes,
    default_true, Meta, SearchMessagesInput,
};
use mail_imap_mcp_rs::errors::AppError;
use mail_imap_mcp_rs::query::{build_search_query, build_search_query_at, day_criterion};
use mail_imap_mcp_rs::validate::{parse_ymd, validate_search_input};

fn search_input() -> SearchMessagesInput {
    SearchMessagesInput {
        account_id: "default".to_owned(),
        mailbox: "INBOX".to_owned(),
        cursor: None,
        query: None,
        from: None,
        to: None,
        subject: None,
        unread_only: None,
        last_days: None,
        start_date: None,
        end_date: None,
        limit: 10,
        include_snippet: false,
        snippet_max_chars: None,
    }
}

fn day(year: i32, month: u32, day: u32) -> Ymd {
    Ymd { year, month, day }
}

#[test]
fn reads_and_writes_days() {
    assert_eq!(read_day("2025-01-31"), Some(day(2025, 1, 31)));
    assert_eq!(read_day("2024-02-29"), Some(day(2024, 2, 29)));
    assert_eq!(read_day("2025-02-29"), None);
    assert_eq!(read_day("31.01.2025"), None);
    assert_eq!(read_day(""), None);
    assert_eq!(imap_date(day(2025, 1, 1)).as_deref(), Some("1-Jan-2025"));
    assert_eq!(imap_date(day(1999, 12, 31)).as_deref(), Some("31-Dec-1999"));
    assert_eq!(imap_date(day(2025, 2, 30)), None);
    assert_eq!(day_after(day(2025, 1, 31)), Some(day(2025, 2, 1)));
    assert_eq!(day_after(day(2024, 12, 31)), Some(day(2025, 1, 1)));
    assert_eq!(days_before(day(2025, 3, 1), 1), Some(day(2025, 2, 28)));
    assert_eq!(days_before(day(2025, 1, 10), 365), Some(day(2024, 1, 11)));
    assert_eq!(day_after(day(2025, 13, 1)), None);
    let now = today();
    assert!(now.year >= 2024);
    assert!(day(2025, 1, 31).le(&day(2025, 1, 31)));
    assert!(day(2025, 1, 31).le(&day(2025, 2, 1)));
    assert!(!day(2025, 2, 1).le(&day(2025, 1, 31)));
    assert!(!day(2026, 1, 1).le(&day(2025, 12, 31)));
    assert!(day(2024, 12, 31).le(&day(2025, 1, 1)));
}

#[test]
fn rejects_texts_that_are_no_days() {
    assert_eq!(parse_ymd("2025-06-07").expect("day"), day(2025, 6, 7));
    let err = parse_ymd("yesterday").expect_err("must fail");
    assert_eq!(err.to_string(), "invalid input: invalid date 'yesterday', expected YYYY-MM-DD");
}

#[test]
fn builds_search_expressions() {
    let now = day(2025, 3, 10);
    assert_eq!(build_search_query_at(&search_input(), now).expect("query"), "ALL");
    assert_eq!(build_search_query(&search_input()).expect("query"), "ALL");

    let mut input = search_input();
    input.query = Some("say \"hi\" \\ bye".to_owned());
    input.from = Some("a@example.com".to_owned());
    input.to = Some("b@example.com".to_owned());
    input.subject = Some("Report".to_owned());
    input.unread_only = Some(true);
    input.start_date = Some("2025-01-01".to_owned());
    input.end_date = Some("2025-01-31".to_owned());
    assert_eq!(
        build_search_query_at(&input, now).expect("query"),
        "TEXT \"say \\\"hi\\\" \\\\ bye\" FROM \"a@example.com\" TO \"b@example.com\" SUBJECT \"Report\" UNSEEN SINCE 1-Jan-2025 BEFORE 1-Feb-2025"
    );

    let mut input = search_input();
    input.unread_only = Some(false);
    input.last_days = Some(7);
    assert_eq!(build_search_query_at(&input, now).expect("query"), "SINCE 3-Mar-2025");

    let mut input = search_input();
    input.subject = Some("bad\nsubject".to_owned());
    let err = build_search_query_at(&input, now).expect_err("must fail");
    assert_eq!(err.to_string(), "invalid input: search text must not contain control characters");

    let mut input = search_input();
    input.end_date = Some("2025-1-x".to_owned());
    let err = build_search_query_at(&input, now).expect_err("must fail");
    assert_eq!(err.to_string(), "invalid input: invalid date '2025-1-x', expected YYYY-MM-DD");
}

#[test]
fn search_requests_are_checked_in_order() {
    validate_search_input(&search_input()).expect("valid");

    let mut input = search_input();
    input.cursor = Some("token".to_owned());
    input.query = Some("text".to_owned());
    let err = validate_search_input(&input).expect_err("must fail");
    assert_eq!(err.to_string(), "invalid input: cursor cannot be combined with search criteria");

    let mut input = search_input();
    input.cursor = Some("token".to_owned());
    input.unread_only = Some(false);
    assert!(validate_search_input(&input).is_err());

    let mut input = search_input();
    input.last_days = Some(3);
    input.start_date = Some("2025-01-01".to_owned());
    let err = validate_search_input(&input).expect_err("must fail");
    assert_eq!(
        err.to_string(),
        "invalid input: last_days cannot be combined with start_date/end_date"
    );

    let mut input = search_input();
    input.start_date = Some("2025-02-01".to_owned());
    input.end_date = Some("2025-01-31".to_owned());
    let err = validate_search_input(&input).expect_err("must fail");
    assert_eq!(err.to_string(), "invalid input: start_date must be <= end_date");
    input.end_date = Some("2025-02-01".to_owned());
    validate_search_input(&input).expect("valid");
    input.end_date = Some("soon".to_owned());
    let err = validate_search_input(&input).expect_err("must fail");
    assert_eq!(err.to_string(), "invalid input: invalid date 'soon', expected YYYY-MM-DD");

    let mut input = search_input();
    input.last_days = Some(0);
    let err = validate_search_input(&input).expect_err("must fail");
    assert_eq!(err.to_string(), "invalid input: last_days must be in range 1..365");
    input.last_days = Some(366);
    assert!(validate_search_input(&input).is_err());
    input.last_days = Some(365);
    validate_search_input(&input).expect("valid");

    let mut input = search_input();
    input.limit = 51;
    let err = validate_search_input(&input).expect_err("must fail");
    assert_eq!(err.to_string(), "invalid input: limit must be in range 1..50");

    let mut input = search_input();
    input.snippet_max_chars = Some(100);
    let err = validate_search_input(&input).expect_err("must fail");
    assert_eq!(
        err.to_string(),
        "invalid input: snippet_max_chars requires include_snippet=true"
    );
    input.include_snippet = true;
    validate_search_input(&input).expect("valid");
    input.snippet_max_chars = Some(49);
    let err = validate_search_input(&input).expect_err("must fail");
    assert_eq!(err.to_string(), "invalid input: snippet_max_chars must be in range 50..500");

    let mut input = search_input();
    input.mailbox = String::new();
    input.limit = 0;
    let err = validate_search_input(&input).expect_err("must fail");
    assert_eq!(err.to_string(), "invalid input: mailbox must be 1..256 characters");
}

#[test]
fn defaults_of_requests() {
    assert_eq!(default_account_id(), "default");
    assert!(default_true());
    assert_eq!(default_limit(), 10);
    assert_eq!(default_body_max_chars(), 2_000);
    assert_eq!(default_raw_max_bytes(), 200_000);
    let meta = Meta::now(17);
    assert_eq!(meta.duration_ms, 17);
    assert!(meta.now_utc.ends_with('Z'));
    assert_eq!(meta.now_utc.len(), 24);
}

#[test]
fn day_criteria_need_a_written_day() {
    assert_eq!(
        day_criterion("SINCE ", Some("1-Jan-2025".to_owned())).expect("a criterion"),
        "SINCE 1-Jan-2025"
    );
    match day_criterion("BEFORE ", None) {
        Err(AppError::InvalidInput(message)) => assert_eq!(message, "date out of range"),
        other => panic!("unexpected: {other:?}"),
    }
}
