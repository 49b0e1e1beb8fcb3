use mail_imap_mcp_rs::config::{AccountConfig, Secret, ServerConfig};
use mail_imap_mcp_rs::errors::AppError;
use mail_imap_mcp_rs::session::{
    append, capabilities, capability_to_string, connect_authenticated, connect_next, fetch_flags,
    fetch_headers_and_flags, fetch_one, fetch_raw_message, flag_to_string, handshake_step,
    has_move, list_all_mailboxes, noop, select_mailbox_readonly, select_mailbox_readwrite, socket_timeout,
    uid_copy, uid_expunge, uid_move, uid_search, uid_store, Capability, ConnectPhase, ConnectStep,
    Fetched, Flag, Outcome, StreamOutcome,
};

fn session_config() -> ServerConfig {
    ServerConfig {
        accounts: Vec::new(),
        write_enabled: false,
        connect_timeout_ms: 11,
        greeting_timeout_ms: 22,
        socket_timeout_ms: 33,
        cursor_ttl_seconds: 600,
        cursor_max_entries: 512,
    }
}

fn session_account(host: &str, secure: bool) -> AccountConfig {
    AccountConfig {
        account_id: "default".to_owned(),
        host: host.to_owned(),
        port: 993,
        secure,
        user: "user@example.com".to_owned(),
        pass: Secret::new("secret".to_owned()),
    }
}

fn text_of(r: Result<(), AppError>) -> String {
    r.expect_err("must fail").to_string()
}

#[test]
fn commands_report_deadlines_and_failures() {
    assert_eq!(socket_timeout(&session_config()), 33);
    assert!(noop(Outcome::Completed(())).is_ok());
    assert_eq!(text_of(noop(Outcome::TimedOut)), "operation timed out: NOOP timed out");
    assert_eq!(
        text_of(noop(Outcome::Failed("broken".to_owned()))),
        "internal error: NOOP failed: broken"
    );
    assert_eq!(text_of(uid_copy(Outcome::TimedOut)), "operation timed out: UID COPY timed out");
    assert_eq!(
        text_of(uid_copy(Outcome::Failed("x".to_owned()))),
        "internal error: UID COPY failed: x"
    );
    assert_eq!(text_of(uid_move(Outcome::TimedOut)), "operation timed out: UID MOVE timed out");
    assert_eq!(
        text_of(uid_move(Outcome::Failed("x".to_owned()))),
        "internal error: UID MOVE failed: x"
    );
    assert_eq!(text_of(append(Outcome::TimedOut)), "operation timed out: APPEND timed out");
    assert_eq!(
        text_of(append(Outcome::Failed("x".to_owned()))),
        "internal error: APPEND failed: x"
    );
    assert_eq!(
        text_of(uid_store(StreamOutcome::TimedOut)),
        "operation timed out: UID STORE timed out"
    );
    assert_eq!(
        text_of(uid_store(StreamOutcome::Failed("x".to_owned()))),
        "internal error: uid store failed: x"
    );
    assert_eq!(
        text_of(uid_store(StreamOutcome::StreamTimedOut)),
        "operation timed out: UID STORE stream timed out"
    );
    assert_eq!(
        text_of(uid_store(StreamOutcome::StreamFailed("x".to_owned()))),
        "internal error: uid store stream failed: x"
    );
    assert!(uid_store(StreamOutcome::Completed(())).is_ok());
    assert_eq!(
        text_of(uid_expunge(StreamOutcome::TimedOut)),
        "operation timed out: UID EXPUNGE timed out"
    );
    assert_eq!(
        text_of(uid_expunge(StreamOutcome::Failed("x".to_owned()))),
        "internal error: UID EXPUNGE failed: x"
    );
    assert_eq!(
        text_of(uid_expunge(StreamOutcome::StreamTimedOut)),
        "operation timed out: UID EXPUNGE stream timed out"
    );
    assert_eq!(
        text_of(uid_expunge(StreamOutcome::StreamFailed("x".to_owned()))),
        "internal error: UID EXPUNGE stream failed: x"
    );
    let err = capabilities(Outcome::TimedOut).err().expect("must fail");
    assert_eq!(err.to_string(), "operation timed out: CAPABILITY timed out");
    let err = capabilities(Outcome::Failed("x".to_owned())).err().expect("must fail");
    assert_eq!(err.to_string(), "internal error: CAPABILITY failed: x");
    let err = list_all_mailboxes(StreamOutcome::StreamFailed("x".to_owned())).err().expect("must fail");
    assert_eq!(err.to_string(), "internal error: LIST stream failed: x");
    let err = list_all_mailboxes(StreamOutcome::TimedOut).err().expect("must fail");
    assert_eq!(err.to_string(), "operation timed out: LIST timed out");
}

#[test]
fn selecting_yields_the_epoch() {
    assert_eq!(select_mailbox_readonly("INBOX", Outcome::Completed(Some(7))).expect("epoch"), 7);
    assert_eq!(select_mailbox_readwrite("INBOX", Outcome::Completed(Some(8))).expect("epoch"), 8);
    let err = select_mailbox_readonly("INBOX", Outcome::Completed(None)).expect_err("must fail");
    assert!(matches!(err, AppError::Internal(_)));
    assert_eq!(err.to_string(), "internal error: mailbox missing UIDVALIDITY");
    let err = select_mailbox_readonly("Sent", Outcome::TimedOut).expect_err("must fail");
    assert_eq!(err.to_string(), "operation timed out: EXAMINE timed out for mailbox 'Sent'");
    let err = select_mailbox_readwrite("Sent", Outcome::TimedOut).expect_err("must fail");
    assert_eq!(err.to_string(), "operation timed out: SELECT timed out for mailbox 'Sent'");
    let err = select_mailbox_readonly("Sent", Outcome::Failed("no".to_owned())).expect_err("must fail");
    assert!(matches!(err, AppError::NotFound(_)));
    assert_eq!(err.to_string(), "not found: cannot examine mailbox 'Sent': no");
    let err = select_mailbox_readwrite("Sent", Outcome::Failed("no".to_owned())).expect_err("must fail");
    assert_eq!(err.to_string(), "not found: cannot select mailbox 'Sent': no");
}

#[test]
fn search_results_come_newest_first() {
    let uids = uid_search(Outcome::Completed(vec![3, 10, 1, 7, 10, 2])).expect("uids");
    assert_eq!(uids, vec![10, 10, 7, 3, 2, 1]);
    assert_eq!(uid_search(Outcome::Completed(Vec::new())).expect("uids"), Vec::<u32>::new());
    let err = uid_search(Outcome::TimedOut).expect_err("must fail");
    assert_eq!(err.to_string(), "operation timed out: UID SEARCH timed out");
    let err = uid_search(Outcome::Failed("bad".to_owned())).expect_err("must fail");
    assert_eq!(err.to_string(), "internal error: uid search failed: bad");
}

fn fetched(body: Option<&[u8]>, header: Option<&[u8]>, flags: Vec<Flag>) -> Fetched {
    Fetched { body: body.map(|b| b.to_vec()), header: header.map(|h| h.to_vec()), flags }
}

#[test]
fn fetches_take_the_first_answer() {
    let first = fetch_one(
        5,
        StreamOutcome::Completed(vec![
            fetched(Some(b"one"), None, Vec::new()),
            fetched(Some(b"two"), None, Vec::new()),
        ]),
    )
    .expect("first");
    assert_eq!(first.body.as_deref(), Some(&b"one"[..]));
    let err = fetch_one(5, StreamOutcome::Completed(Vec::new())).expect_err("must fail");
    assert!(matches!(err, AppError::NotFound(_)));
    assert_eq!(err.to_string(), "not found: message uid 5 not found");
    let err = fetch_one(5, StreamOutcome::TimedOut).expect_err("must fail");
    assert_eq!(err.to_string(), "operation timed out: UID FETCH timed out");
    let err = fetch_one(5, StreamOutcome::Failed("x".to_owned())).expect_err("must fail");
    assert_eq!(err.to_string(), "internal error: uid fetch failed: x");
    let err = fetch_one(5, StreamOutcome::StreamTimedOut).expect_err("must fail");
    assert_eq!(err.to_string(), "operation timed out: UID FETCH stream timed out");
    let err = fetch_one(5, StreamOutcome::StreamFailed("x".to_owned())).expect_err("must fail");
    assert_eq!(err.to_string(), "internal error: uid fetch stream failed: x");
}

#[test]
fn fetches_hand_out_bodies_headers_and_flags() {
    let raw = fetch_raw_message(Ok(fetched(Some(b"source"), None, Vec::new()))).expect("raw");
    assert_eq!(raw, b"source".to_vec());
    let err = fetch_raw_message(Ok(fetched(None, Some(b"h"), Vec::new()))).expect_err("must fail");
    assert_eq!(err.to_string(), "internal error: message has no RFC822 body");
    let err = fetch_raw_message(Err(AppError::Timeout("t".to_owned()))).expect_err("must fail");
    assert_eq!(err.to_string(), "operation timed out: t");

    let (header, flags) = fetch_headers_and_flags(Ok(fetched(
        Some(b"body"),
        Some(b"head"),
        vec![Flag::Seen, Flag::Custom("$Label \"1\"".to_owned())],
    )))
    .expect("headers");
    assert_eq!(header, b"head".to_vec());
    assert_eq!(flags, vec!["Seen".to_owned(), "Custom(\"$Label \\\"1\\\"\")".to_owned()]);
    let (header, _) = fetch_headers_and_flags(Ok(fetched(Some(b"body"), None, Vec::new())))
        .expect("headers");
    assert_eq!(header, b"body".to_vec());
    let err = fetch_headers_and_flags(Ok(fetched(None, None, Vec::new()))).expect_err("must fail");
    assert_eq!(err.to_string(), "internal error: message headers not available");

    let flags = fetch_flags(Ok(fetched(
        None,
        None,
        vec![Flag::Answered, Flag::Flagged, Flag::Deleted, Flag::Draft, Flag::Recent, Flag::MayCreate],
    )))
    .expect("flags");
    assert_eq!(flags, vec!["Answered", "Flagged", "Deleted", "Draft", "Recent", "MayCreate"]);
}

#[test]
fn prints_flags_and_capabilities() {
    assert_eq!(flag_to_string(&Flag::Seen), "Seen");
    assert_eq!(flag_to_string(&Flag::Custom("x".to_owned())), "Custom(\"x\")");
    assert_eq!(capability_to_string(&Capability::Imap4rev1), "Imap4rev1");
    assert_eq!(capability_to_string(&Capability::Auth("PLAIN".to_owned())), "Auth(\"PLAIN\")");
    assert_eq!(capability_to_string(&Capability::Atom("MOVE".to_owned())), "Atom(\"MOVE\")");
    assert!(has_move(&vec![Capability::Imap4rev1, Capability::Atom("MOVE".to_owned())]));
    assert!(!has_move(&vec![Capability::Auth("MOVE".to_owned()), Capability::Atom("move".to_owned())]));
    assert!(!has_move(&Vec::new()));
}

fn done_text(step: ConnectStep) -> String {
    match step {
        ConnectStep::Done(r) => r.expect_err("must fail").to_string(),
        other => panic!("not done: {:?}", other),
    }
}

#[test]
fn insecure_accounts_are_rejected() {
    let step = connect_authenticated(&session_config(), &session_account("imap.example.com", false));
    assert_eq!(
        done_text(step),
        "invalid input: insecure IMAP is not supported; set MAIL_IMAP_<ACCOUNT>_SECURE=true"
    );
}

#[test]
fn sessions_open_step_by_step() {
    let config = session_config();
    let account = session_account("imap.example.com", true);
    match connect_authenticated(&config, &account) {
        ConnectStep::Transport { host, port, timeout_ms } => {
            assert_eq!(host, "imap.example.com");
            assert_eq!(port, 993);
            assert_eq!(timeout_ms, 11);
        }
        other => panic!("unexpected step: {:?}", other),
    }
    match connect_next(&config, &account, ConnectPhase::Transport, Outcome::Completed(true)) {
        ConnectStep::Handshake { host, timeout_ms } => {
            assert_eq!(host, "imap.example.com");
            assert_eq!(timeout_ms, 22);
        }
        other => panic!("unexpected step: {:?}", other),
    }
    match connect_next(&config, &account, ConnectPhase::Handshake, Outcome::Completed(true)) {
        ConnectStep::Greeting { timeout_ms } => assert_eq!(timeout_ms, 22),
        other => panic!("unexpected step: {:?}", other),
    }
    match connect_next(&config, &account, ConnectPhase::Greeting, Outcome::Completed(true)) {
        ConnectStep::Login { user, timeout_ms } => {
            assert_eq!(user, "user@example.com");
            assert_eq!(timeout_ms, 22);
        }
        other => panic!("unexpected step: {:?}", other),
    }
    match connect_next(&config, &account, ConnectPhase::Login, Outcome::Completed(true)) {
        ConnectStep::Done(r) => assert!(r.is_ok()),
        other => panic!("unexpected step: {:?}", other),
    }
}

#[test]
fn opening_a_session_classifies_failures() {
    let config = session_config();
    let account = session_account("imap.example.com", true);
    let bad_host = session_account("not a host name", true);
    assert_eq!(
        done_text(connect_next(&config, &account, ConnectPhase::Transport, Outcome::TimedOut)),
        "operation timed out: tcp connect timeout"
    );
    assert_eq!(
        done_text(connect_next(
            &config,
            &account,
            ConnectPhase::Transport,
            Outcome::Failed("refused".to_owned())
        )),
        "internal error: tcp connect failed: refused"
    );
    assert_eq!(
        done_text(connect_next(&config, &bad_host, ConnectPhase::Transport, Outcome::Completed(true))),
        "invalid input: invalid IMAP host for TLS SNI"
    );
    assert_eq!(
        done_text(connect_next(&config, &account, ConnectPhase::Handshake, Outcome::TimedOut)),
        "operation timed out: TLS handshake timeout"
    );
    assert_eq!(
        done_text(connect_next(
            &config,
            &account,
            ConnectPhase::Handshake,
            Outcome::Failed("cert".to_owned())
        )),
        "internal error: TLS handshake failed: cert"
    );
    assert_eq!(
        done_text(connect_next(&config, &account, ConnectPhase::Greeting, Outcome::TimedOut)),
        "operation timed out: IMAP greeting timeout"
    );
    assert_eq!(
        done_text(connect_next(
            &config,
            &account,
            ConnectPhase::Greeting,
            Outcome::Failed("eof".to_owned())
        )),
        "internal error: IMAP greeting failed: eof"
    );
    assert_eq!(
        done_text(connect_next(&config, &account, ConnectPhase::Greeting, Outcome::Completed(false))),
        "internal error: IMAP server closed connection before greeting"
    );
    assert_eq!(
        done_text(connect_next(&config, &account, ConnectPhase::Login, Outcome::TimedOut)),
        "operation timed out: IMAP login timeout"
    );
    assert_eq!(
        done_text(connect_next(
            &config,
            &account,
            ConnectPhase::Login,
            Outcome::Failed("[AUTHENTICATIONFAILED] bad".to_owned())
        )),
        "authentication failed: [AUTHENTICATIONFAILED] bad"
    );
    assert_eq!(
        done_text(connect_next(
            &config,
            &account,
            ConnectPhase::Login,
            Outcome::Failed("NO LOGIN rejected".to_owned())
        )),
        "authentication failed: NO LOGIN rejected"
    );
    assert_eq!(
        done_text(connect_next(
            &config,
            &account,
            ConnectPhase::Login,
            Outcome::Failed("connection reset, login lost".to_owned())
        )),
        "internal error: connection reset, login lost"
    );
}

#[test]
fn the_handshake_needs_a_server_name() {
    let config = session_config();
    let account = session_account("imap.example.com", true);
    match handshake_step(&config, &account, true) {
        ConnectStep::Handshake { host, timeout_ms } => {
            assert_eq!(host, "imap.example.com");
            assert_eq!(timeout_ms, 22);
        }
        other => panic!("unexpected: {other:?}"),
    }
    assert_eq!(
        done_text(handshake_step(&config, &account, false)),
        "invalid input: invalid IMAP host for TLS SNI"
    );
}
