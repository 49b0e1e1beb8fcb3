use mail_imap_mcp_rs::config::{AccountConfig, Secret, ServerConfig};
use mail_imap_mcp_rs::dates::Ymd;
use mail_imap_mcp_rs::engine::{Command, Reply, Step};
use mail_imap_mcp_rs::errors::{AppError, ErrorCategory};
use mail_imap_mcp_rs::models::SearchMessagesInput;
use mail_imap_mcp_rs::pagination::CursorStore;
use mail_imap_mcp_rs::report::{
    app_error_code, clamp_millis, is_hard_precondition_error, issue_is_error,
    status_from_counts, Status, ToolIssue,
};
use mail_imap_mcp_rs::search::{
    search_begin, search_resume, search_resume_at, summary_of, Moment, SearchPhase,
    SearchResultData, SearchState,
};
use mail_imap_mcp_rs::server::{instructions, MailImapServer};
use std::time::Instant;

fn paging_config() -> ServerConfig {
    ServerConfig {
        accounts: vec![AccountConfig {
            account_id: "default".to_owned(),
            host: "imap.example.com".to_owned(),
            port: 993,
            secure: true,
            user: "user".to_owned(),
            pass: Secret::new("secret".to_owned()),
        }],
        write_enabled: false,
        connect_timeout_ms: 1,
        greeting_timeout_ms: 2,
        socket_timeout_ms: 3,
        cursor_ttl_seconds: 600,
        cursor_max_entries: 4,
    }
}

fn paging_input(limit: usize) -> SearchMessagesInput {
    SearchMessagesInput {
        account_id: "default".to_owned(),
        mailbox: "INBOX".to_owned(),
        cursor: None,
        query: None,
        from: None,
        to: None,
        subject: None,
        unread_only: None,
        last_days: None,
        start_date: None,
        end_date: None,
        limit,
        include_snippet: false,
        snippet_max_chars: None,
    }
}

fn moment(now: u128, token: &str) -> Moment {
    Moment { now, today: Ymd { year: 2025, month: 3, day: 10 }, token: token.to_owned() }
}

fn going(step: Step<SearchState, SearchResultData>) -> (SearchState, Command) {
    match step {
        Step::Send(state, command) => (state, command),
        Step::Finish(_) => panic!("the search finished"),
    }
}

fn page(step: Step<SearchState, SearchResultData>) -> SearchResultData {
    match step {
        Step::Finish(Ok(result)) => result,
        Step::Finish(Err(e)) => panic!("the search failed: {}", e.to_string()),
        Step::Send(_, _) => panic!("the search goes on"),
    }
}

fn refused(step: Step<SearchState, SearchResultData>) -> AppError {
    match step {
        Step::Finish(Err(e)) => e,
        _ => panic!("the search was not refused"),
    }
}

fn headers_of(uid: u32) -> Reply {
    let bytes = format!("Subject: Message number {}\r\nFrom: sender{}@example.com\r\nDate: day {}\r\n\r\n", uid, uid, uid);
    Reply::HeadersAndFlags(Ok((bytes.into_bytes(), vec!["Seen".to_owned()])))
}

fn fetched_uid(command: &Command) -> u32 {
    match command {
        Command::FetchHeadersAndFlags { uid } => *uid,
        other => panic!("unexpected command: {:?}", other),
    }
}

fn run_to_first_fetch(
    store: &mut CursorStore,
    input: SearchMessagesInput,
    uids: Option<Vec<u32>>,
    at: Moment,
) -> Step<SearchState, SearchResultData> {
    let (state, command) = going(search_begin(&paging_config(), input));
    assert!(matches!(command, Command::Connect { ref account_id } if account_id == "default"));
    let (state, command) = going(search_resume(store, state, Reply::Done(Ok(()))));
    assert!(matches!(command, Command::SelectReadOnly { ref mailbox } if mailbox == "INBOX"));
    match uids {
        Some(uids) => {
            let (state, command) = going(search_resume(store, state, Reply::Epoch(Ok(7))));
            assert!(matches!(command, Command::Search { ref query } if query == "ALL"));
            search_resume_at(store, state, Reply::Uids(Ok(uids)), at)
        }
        None => search_resume_at(store, state, Reply::Epoch(Ok(7)), at),
    }
}

#[test]
fn pages_through_a_search() {
    let mut store = CursorStore::new(600, 4);
    let uids = vec![50, 40, 30, 20, 10];
    let (state, command) = going(run_to_first_fetch(&mut store, paging_input(2), Some(uids), moment(0, "token-1")));
    assert_eq!(fetched_uid(&command), 50);
    let (state, command) = going(search_resume_at(&mut store, state, headers_of(50), moment(1, "unused")));
    assert_eq!(fetched_uid(&command), 40);
    let first = page(search_resume_at(&mut store, state, headers_of(40), moment(2, "token-1")));
    assert_eq!(first.status, Status::Okay);
    assert!(first.has_more);
    assert_eq!(first.next_cursor.as_deref(), Some("token-1"));
    assert_eq!(first.total, 5);
    assert_eq!(first.attempted, 2);
    assert_eq!(first.returned, 2);
    assert_eq!(first.failed, 0);
    let shown: Vec<u32> = first.messages.iter().map(|m| m.uid).collect();
    assert_eq!(shown, vec![50, 40]);
    assert_eq!(first.messages[0].message_id, "imap:default:INBOX:7:50");
    assert_eq!(first.messages[0].message_uri, "imap://default/mailbox/INBOX/message/7/50");
    assert_eq!(first.messages[0].message_raw_uri, "imap://default/mailbox/INBOX/message/7/50/raw");
    assert_eq!(first.messages[0].subject.as_deref(), Some("Message number 50"));
    assert_eq!(first.messages[0].from.as_deref(), Some("sender50@example.com"));
    assert_eq!(first.messages[0].date.as_deref(), Some("day 50"));
    assert_eq!(first.messages[0].flags, Some(vec!["Seen".to_owned()]));
    assert_eq!(first.messages[0].snippet, None);
    assert_eq!(first.messages[0].uidvalidity, 7);
    assert_eq!(first.next_action.tool, "imap_search_messages");
    assert_eq!(first.next_action.instruction, "Continue pagination to retrieve more messages.");
    assert_eq!(store.len(), 1);

    let mut input = paging_input(2);
    input.cursor = first.next_cursor.clone();
    let (state, command) = going(run_to_first_fetch(&mut store, input, None, moment(3, "unused")));
    assert_eq!(fetched_uid(&command), 30);
    let (state, command) = going(search_resume_at(&mut store, state, headers_of(30), moment(4, "unused")));
    assert_eq!(fetched_uid(&command), 20);
    let second = page(search_resume_at(&mut store, state, headers_of(20), moment(5, "unused")));
    assert_eq!(second.total, first.total);
    assert!(second.has_more);
    assert_eq!(second.next_cursor.as_deref(), Some("token-1"));
    let shown: Vec<u32> = second.messages.iter().map(|m| m.uid).collect();
    assert_eq!(shown, vec![30, 20]);

    let mut input = paging_input(2);
    input.cursor = second.next_cursor.clone();
    let (state, command) = going(run_to_first_fetch(&mut store, input, None, moment(6, "unused")));
    assert_eq!(fetched_uid(&command), 10);
    let last = page(search_resume_at(&mut store, state, headers_of(10), moment(7, "unused")));
    assert_eq!(last.total, 5);
    assert_eq!(last.attempted, 1);
    assert!(!last.has_more);
    assert_eq!(last.next_cursor, None);
    assert_eq!(last.next_action.tool, "imap_get_message");
    assert_eq!(store.len(), 0);

    let mut input = paging_input(2);
    input.cursor = Some("token-1".to_owned());
    let err = refused(run_to_first_fetch(&mut store, input, None, moment(8, "unused")));
    assert_eq!(err.to_string(), "invalid input: cursor is invalid or expired");
}

#[test]
fn a_first_page_with_every_match_leaves_no_cursor() {
    let mut store = CursorStore::new(600, 4);
    let (state, command) = going(run_to_first_fetch(&mut store, paging_input(10), Some(vec![2, 1]), moment(0, "t")));
    assert_eq!(fetched_uid(&command), 2);
    let (state, _) = going(search_resume(&mut store, state, headers_of(2)));
    let result = page(search_resume(&mut store, state, headers_of(1)));
    assert!(!result.has_more);
    assert_eq!(result.next_cursor, None);
    assert_eq!(result.total, 2);
    assert_eq!(store.len(), 0);

    let empty = page(run_to_first_fetch(&mut store, paging_input(10), Some(Vec::new()), moment(0, "t")));
    assert_eq!(empty.status, Status::Okay);
    assert_eq!(empty.total, 0);
    assert_eq!(empty.attempted, 0);
    assert!(empty.messages.is_empty());
    assert_eq!(empty.next_action.instruction, "Retry search with broader criteria.");
}

#[test]
fn tokens_of_new_cursors_are_drawn_at_random() {
    let mut store = CursorStore::new(600, 4);
    let (state, _) = going(run_to_first_fetch(&mut store, paging_input(1), Some(vec![2, 1]), moment(0, "t")));
    let result = page(search_resume(&mut store, state, headers_of(2)));
    assert!(result.has_more);
    let token = result.next_cursor.expect("token");
    assert_eq!(token.len(), 36);
    assert!(store.get(&token).is_some());
}

#[test]
fn a_summary_that_cannot_be_fetched_is_left_out() {
    let mut store = CursorStore::new(600, 4);
    let mut input = paging_input(3);
    input.include_snippet = true;
    input.snippet_max_chars = Some(50);
    input.subject = Some("Message".to_owned());
    let (state, command) = going(search_begin(&paging_config(), input));
    assert!(matches!(command, Command::Connect { .. }));
    let (state, _) = going(search_resume(&mut store, state, Reply::Done(Ok(()))));
    let (state, command) = going(search_resume(&mut store, state, Reply::Epoch(Ok(7))));
    assert!(matches!(command, Command::Search { ref query } if query == "SUBJECT \"Message\""));
    let (state, _) = going(search_resume(&mut store, state, Reply::Uids(Ok(vec![3, 2, 1]))));
    let (state, _) = going(search_resume(&mut store, state, headers_of(3)));
    let (state, _) = going(search_resume(
        &mut store,
        state,
        Reply::HeadersAndFlags(Err(AppError::Timeout("UID FETCH timed out".to_owned()))),
    ));
    let result = page(search_resume(
        &mut store,
        state,
        Reply::HeadersAndFlags(Ok((b"\rbroken".to_vec(), Vec::new()))),
    ));
    assert_eq!(result.status, Status::Partial);
    assert_eq!(result.attempted, 3);
    assert_eq!(result.returned, 1);
    assert_eq!(result.failed, 2);
    assert_eq!(result.messages[0].uid, 3);
    assert_eq!(result.messages[0].snippet.as_deref(), Some("Message number 3"));
    assert_eq!(result.issues[0].stage, "fetch_headers_and_flags");
    assert_eq!(result.issues[0].uid, Some(2));
    assert_eq!(result.issues[0].code, "timeout");
    assert_eq!(result.issues[0].message_id, None);
    assert_eq!(result.issues[1].stage, "parse_header_bytes");
    assert_eq!(result.issues[1].uid, Some(1));
    assert_eq!(result.issues[1].code, "internal");
}

#[test]
fn a_page_without_any_summary_has_failed() {
    let mut store = CursorStore::new(600, 4);
    let (state, _) = going(run_to_first_fetch(&mut store, paging_input(5), Some(vec![9]), moment(0, "t")));
    let result = page(search_resume(
        &mut store,
        state,
        Reply::HeadersAndFlags(Err(AppError::Internal("x".to_owned()))),
    ));
    assert_eq!(result.status, Status::Failed);
    assert_eq!(result.failed, 1);
    assert_eq!(result.next_action.tool, "imap_verify_account");
}

#[test]
fn searches_fail_softly_on_the_network() {
    let mut store = CursorStore::new(600, 4);
    let (state, _) = going(search_begin(&paging_config(), paging_input(5)));
    let result = page(search_resume(&mut store, state, Reply::Done(Err(AppError::Timeout("tcp connect timeout".to_owned())))));
    assert_eq!(result.status, Status::Failed);
    assert_eq!(result.issues[0].stage, "connect_authenticated");
    assert_eq!(result.total, 0);
    assert!(!result.has_more);
    assert_eq!(result.next_action.tool, "imap_verify_account");

    let (state, _) = going(search_begin(&paging_config(), paging_input(5)));
    let (state, _) = going(search_resume(&mut store, state, Reply::Done(Ok(()))));
    let result = page(search_resume(&mut store, state, Reply::Epoch(Err(AppError::NotFound("cannot examine mailbox 'INBOX': no".to_owned())))));
    assert_eq!(result.status, Status::Failed);
    assert_eq!(result.issues[0].stage, "select_mailbox_readonly");
    assert_eq!(result.issues[0].code, "not_found");

    let (state, _) = going(search_begin(&paging_config(), paging_input(5)));
    let (state, _) = going(search_resume(&mut store, state, Reply::Done(Ok(()))));
    let (state, _) = going(search_resume(&mut store, state, Reply::Epoch(Ok(7))));
    let result = page(search_resume(&mut store, state, Reply::Uids(Err(AppError::Internal("uid search failed: x".to_owned())))));
    assert_eq!(result.status, Status::Failed);
    assert_eq!(result.issues[0].stage, "uid_search");

    let (state, _) = going(search_begin(&paging_config(), paging_input(5)));
    let (state, _) = going(search_resume(&mut store, state, Reply::Done(Ok(()))));
    let (state, _) = going(search_resume(&mut store, state, Reply::Epoch(Ok(7))));
    let err = refused(search_resume(&mut store, state, Reply::Uids(Err(AppError::Conflict("c".to_owned())))));
    assert!(matches!(err, AppError::Conflict(_)));
}

#[test]
fn searches_with_too_many_matches_are_refused() {
    let mut store = CursorStore::new(600, 4);
    let uids: Vec<u32> = (0..20_001).rev().collect();
    let err = refused(run_to_first_fetch(&mut store, paging_input(5), Some(uids), moment(0, "t")));
    assert_eq!(
        err.to_string(),
        "invalid input: search matched 20001 messages; narrow filters to at most 20000 results"
    );
    let uids: Vec<u32> = (0..20_000).rev().collect();
    let (_, command) = going(run_to_first_fetch(&mut store, paging_input(5), Some(uids), moment(0, "t")));
    assert_eq!(fetched_uid(&command), 19_999);
}

#[test]
fn contradictory_search_requests_are_refused_at_once() {
    let mut input = paging_input(5);
    input.cursor = Some("token".to_owned());
    input.from = Some("a@example.com".to_owned());
    let err = refused(search_begin(&paging_config(), input));
    assert!(matches!(err, AppError::InvalidInput(_)));
    assert_eq!(err.to_string(), "invalid input: cursor cannot be combined with search criteria");
    let mut input = paging_input(5);
    input.last_days = Some(1);
    input.start_date = Some("2025-01-01".to_owned());
    let err = refused(search_begin(&paging_config(), input));
    assert!(matches!(err, AppError::InvalidInput(_)));
    let mut input = paging_input(5);
    input.start_date = Some("2025-01-02".to_owned());
    input.end_date = Some("2025-01-01".to_owned());
    let err = refused(search_begin(&paging_config(), input));
    assert_eq!(err.to_string(), "invalid input: start_date must be <= end_date");
    let mut input = paging_input(5);
    input.account_id = "nobody".to_owned();
    let err = refused(search_begin(&paging_config(), input));
    assert!(matches!(err, AppError::NotFound(_)));
}

#[test]
fn stale_cursors_are_deleted_with_a_conflict() {
    let mut store = CursorStore::new(600, 4);
    let (state, _) = going(run_to_first_fetch(&mut store, paging_input(1), Some(vec![2, 1]), moment(0, "tok")));
    let first = page(search_resume_at(&mut store, state, headers_of(2), moment(1, "tok")));
    assert_eq!(first.next_cursor.as_deref(), Some("tok"));

    let mut other = paging_input(1);
    other.cursor = Some("tok".to_owned());
    other.mailbox = "Sent".to_owned();
    let (state, _) = going(search_begin(&paging_config(), other));
    let (state, _) = going(search_resume(&mut store, state, Reply::Done(Ok(()))));
    let err = refused(search_resume_at(&mut store, state, Reply::Epoch(Ok(7)), moment(2, "x")));
    assert_eq!(err.to_string(), "invalid input: cursor does not match account/mailbox");
    assert_eq!(store.len(), 1);

    let mut again = paging_input(1);
    again.cursor = Some("tok".to_owned());
    let (state, _) = going(search_begin(&paging_config(), again));
    let (state, _) = going(search_resume(&mut store, state, Reply::Done(Ok(()))));
    let err = refused(search_resume_at(&mut store, state, Reply::Epoch(Ok(8)), moment(3, "x")));
    assert!(matches!(err, AppError::Conflict(_)));
    assert_eq!(err.to_string(), "conflict: mailbox snapshot changed; rerun search");
    assert_eq!(store.len(), 0);
}

#[test]
fn cursors_expire_between_pages() {
    let mut store = CursorStore::new(1, 4);
    let (state, _) = going(run_to_first_fetch(&mut store, paging_input(1), Some(vec![2, 1]), moment(0, "tok")));
    let first = page(search_resume_at(&mut store, state, headers_of(2), moment(0, "tok")));
    assert!(first.has_more);
    let mut next = paging_input(1);
    next.cursor = Some("tok".to_owned());
    let err = refused(run_to_first_fetch(&mut store, next, None, moment(1_100_000_000, "x")));
    assert_eq!(err.to_string(), "invalid input: cursor is invalid or expired");
}

#[test]
fn statuses_and_codes_follow_from_the_failure() {
    assert_eq!(status_from_counts(true, false), Status::Okay);
    assert_eq!(status_from_counts(true, true), Status::Okay);
    assert_eq!(status_from_counts(false, true), Status::Partial);
    assert_eq!(status_from_counts(false, false), Status::Failed);
    assert_eq!(Status::Okay.as_str(), "ok");
    assert_eq!(Status::Partial.as_str(), "partial");
    assert_eq!(Status::Failed.as_str(), "failed");
    let cases = [
        (AppError::invalid("m"), "invalid_input", false, true, ErrorCategory::InvalidParams),
        (AppError::NotFound("m".to_owned()), "not_found", false, false, ErrorCategory::ResourceNotFound),
        (AppError::AuthFailed("m".to_owned()), "auth_failed", false, false, ErrorCategory::InvalidRequest),
        (AppError::Timeout("m".to_owned()), "timeout", true, false, ErrorCategory::InternalError),
        (AppError::Conflict("m".to_owned()), "conflict", false, true, ErrorCategory::InvalidRequest),
        (AppError::Internal("m".to_owned()), "internal", true, false, ErrorCategory::InternalError),
    ];
    for (error, code, retryable, hard, category) in cases {
        assert_eq!(app_error_code(&error), code);
        assert_eq!(is_hard_precondition_error(&error), hard);
        let issue = ToolIssue::from_error("stage", &error).with_uid(9).with_message_id("id");
        assert_eq!(issue.code, code);
        assert_eq!(issue.retryable, retryable);
        assert_eq!(issue.stage, "stage");
        assert_eq!(issue.message, error.to_string());
        assert_eq!(issue.uid, Some(9));
        assert_eq!(issue.message_id.as_deref(), Some("id"));
        let data = error.to_error_data();
        assert_eq!(data.category, category);
        assert_eq!(data.message, "m");
        assert_eq!(data.code, code);
    }
    assert_eq!(AppError::Timeout("x".to_owned()).to_string(), "operation timed out: x");
    assert_eq!(AppError::AuthFailed("x".to_owned()).to_string(), "authentication failed: x");
    assert_eq!(clamp_millis(5), 5);
    assert_eq!(clamp_millis(u128::MAX), u64::MAX);
}

#[test]
fn tools_answer_in_an_envelope() {
    let server = MailImapServer::new(paging_config());
    assert_eq!(server.cursors.len(), 0);
    assert_eq!(server.config.cursor_max_entries, 4);
    let started = Instant::now();
    let answer = server.list_accounts(&started).ok().expect("answer");
    assert_eq!(answer.summary, "1 account(s) configured");
    assert_eq!(answer.data.accounts.len(), 1);
    let refused = MailImapServer::delete_message(&started, Err(AppError::Conflict("stale".to_owned())))
        .err()
        .expect("refused");
    assert_eq!(refused.category, ErrorCategory::InvalidRequest);
    assert_eq!(refused.message, "stale");
    assert_eq!(refused.code, "conflict");
    assert!(instructions().starts_with("Secure IMAP MCP server."));

    let mut store = CursorStore::new(600, 4);
    let (state, _) = going(run_to_first_fetch(&mut store, paging_input(5), Some(vec![1]), moment(0, "t")));
    let result = page(search_resume(&mut store, state, headers_of(1)));
    let answer = MailImapServer::search_messages(&started, Ok(result)).ok().expect("answer");
    assert_eq!(answer.summary, "1 message(s) returned");
    assert_eq!(answer.data.returned, 1);
}

#[test]
fn summaries_show_headers_flags_and_snippet() {
    let headers = vec![
        ("Date".to_owned(), "Wed, 1 Jan 2025 00:00:00 +0000".to_owned()),
        ("SUBJECT".to_owned(), "Quarterly numbers".to_owned()),
        ("Subject".to_owned(), "ignored".to_owned()),
    ];
    let flags = vec!["Seen".to_owned()];
    let summary = summary_of("acct", "Projects:2026", 7, 42, &headers, flags, true, 9);
    assert_eq!(summary.message_id, "imap:acct:Projects:2026:7:42");
    assert_eq!(summary.message_uri, "imap://acct/mailbox/Projects%3A2026/message/7/42");
    assert_eq!(summary.message_raw_uri, "imap://acct/mailbox/Projects%3A2026/message/7/42/raw");
    assert_eq!(summary.mailbox, "Projects:2026");
    assert_eq!(summary.uidvalidity, 7);
    assert_eq!(summary.uid, 42);
    assert_eq!(summary.date.as_deref(), Some("Wed, 1 Jan 2025 00:00:00 +0000"));
    assert_eq!(summary.from, None);
    assert_eq!(summary.subject.as_deref(), Some("Quarterly numbers"));
    assert_eq!(summary.flags, Some(vec!["Seen".to_owned()]));
    assert_eq!(summary.snippet.as_deref(), Some("Quarterly"));

    let plain = summary_of("acct", "INBOX", 1, 2, &headers, Vec::new(), false, 9);
    assert_eq!(plain.snippet, None);
}

#[test]
fn failures_and_lower_layer_issues_are_errors() {
    let issue = |code: &str| ToolIssue {
        code: code.to_owned(),
        stage: "fetch".to_owned(),
        message: "m".to_owned(),
        retryable: false,
        uid: None,
        message_id: None,
    };
    assert!(issue_is_error(Status::Failed, &issue("not_found")));
    assert!(issue_is_error(Status::Partial, &issue("internal")));
    assert!(issue_is_error(Status::Partial, &issue("timeout")));
    assert!(issue_is_error(Status::Okay, &issue("timeout")));
    assert!(!issue_is_error(Status::Partial, &issue("not_found")));
    assert!(!issue_is_error(Status::Partial, &issue("conflict")));
    assert!(!issue_is_error(Status::Okay, &issue("Internal")));
}

#[test]
fn every_match_of_a_page_is_returned_or_failed() {
    let mut store = CursorStore::new(600, 4);
    let uids = vec![9, 8, 7, 6];
    let first = run_to_first_fetch(&mut store, paging_input(3), Some(uids), moment(0, "t"));
    let (state, _) = going(first);
    let (state, command) = going(search_resume_at(&mut store, state, headers_of(9), moment(1, "t")));
    assert_eq!(fetched_uid(&command), 8);
    let lost = Reply::HeadersAndFlags(Err(AppError::Timeout("UID FETCH timed out".to_owned())));
    let (state, command) = going(search_resume_at(&mut store, state, lost, moment(2, "t")));
    assert_eq!(fetched_uid(&command), 7);
    let result = page(search_resume_at(&mut store, state, headers_of(7), moment(3, "t")));
    assert_eq!(result.status, Status::Partial);
    assert_eq!(result.total, 4);
    assert_eq!(result.attempted, 3);
    assert_eq!(result.returned, 2);
    assert_eq!(result.failed, 1);
    assert_eq!(result.returned + result.failed, result.attempted);
    let shown: Vec<u32> = result.messages.iter().map(|m| m.uid).collect();
    assert_eq!(shown, vec![9, 7]);
    assert_eq!(result.issues[0].uid, Some(8));
    assert!(result.has_more);
    assert_eq!(result.next_cursor.as_deref(), Some("t"));
}

#[test]
fn a_page_that_lost_a_summary_on_the_way_is_not_taken() {
    let mut store = CursorStore::new(600, 4);
    let first = run_to_first_fetch(&mut store, paging_input(3), Some(vec![9, 8, 7]), moment(0, "t"));
    let (state, _) = going(first);
    let (mut state, _) = going(search_resume_at(&mut store, state, headers_of(9), moment(1, "t")));
    match &mut state.phase {
        SearchPhase::Fetching { page } => page.messages.clear(),
        other => panic!("unexpected phase: {:?}", other),
    }
    let err = refused(search_resume_at(&mut store, state, headers_of(8), moment(2, "t")));
    assert_eq!(
        err.to_string(),
        "internal error: reply does not answer the command that was sent"
    );
    assert_eq!(store.len(), 0);
}
