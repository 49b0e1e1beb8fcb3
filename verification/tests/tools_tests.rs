use mail_imap_mcp_rs::accounts::{
    list_accounts, mailboxes_begin, mailboxes_resume, verify_begin, verify_resume,
};
use mail_imap_mcp_rs::config::{AccountConfig, Secret, ServerConfig};
use mail_imap_mcp_rs::copy::{copy_begin, copy_resume};
use mail_imap_mcp_rs::delete::{delete_begin, delete_resume};
use mail_imap_mcp_rs::detail::{detail_begin, detail_resume};
use mail_imap_mcp_rs::engine::{Command, Reply, Step};
use mail_imap_mcp_rs::errors::AppError;
use mail_imap_mcp_rs::flags::{flags_begin, flags_resume};
use mail_imap_mcp_rs::models::{
    AccountOnlyInput, CopyMessageInput, DeleteMessageInput, GetMessageInput, GetMessageRawInput,
    MailboxInfo, MoveMessageInput, UpdateMessageFlagsInput,
};
use mail_imap_mcp_rs::moving::{move_begin, move_resume};
use mail_imap_mcp_rs::raw::{raw_begin, raw_resume};
use mail_imap_mcp_rs::report::{ArgValue, NextAction, Status};
use mail_imap_mcp_rs::session::Capability;

fn tool_account(id: &str) -> AccountConfig {
    AccountConfig {
        account_id: id.to_owned(),
        host: format!("{}.example.com", id),
        port: 993,
        secure: true,
        user: "user".to_owned(),
        pass: Secret::new("secret".to_owned()),
    }
}

fn tool_config(write_enabled: bool) -> ServerConfig {
    ServerConfig {
        accounts: vec![tool_account("default"), tool_account("work")],
        write_enabled,
        connect_timeout_ms: 1,
        greeting_timeout_ms: 2,
        socket_timeout_ms: 3,
        cursor_ttl_seconds: 600,
        cursor_max_entries: 512,
    }
}

fn sent<S, R>(step: Step<S, R>) -> (S, Command) {
    match step {
        Step::Send(state, command) => (state, command),
        Step::Finish(_) => panic!("the tool finished"),
    }
}

fn report<S, R>(step: Step<S, R>) -> R {
    match step {
        Step::Finish(Ok(result)) => result,
        Step::Finish(Err(e)) => panic!("the tool failed: {}", e.to_string()),
        Step::Send(_, _) => panic!("the tool goes on"),
    }
}

fn refusal<S, R>(step: Step<S, R>) -> AppError {
    match step {
        Step::Finish(Err(e)) => e,
        _ => panic!("the tool did not refuse"),
    }
}

fn done() -> Reply {
    Reply::Done(Ok(()))
}

fn broken(text: &str) -> AppError {
    AppError::Internal(text.to_owned())
}

fn argument(action: &NextAction, name: &str) -> Option<String> {
    action.arguments.iter().find(|a| a.name == name).map(|a| match &a.value {
        ArgValue::Text(t) => t.clone(),
        ArgValue::Number(n) => n.to_string(),
        ArgValue::Flag(b) => b.to_string(),
    })
}

fn delete_input(confirm: bool) -> DeleteMessageInput {
    DeleteMessageInput {
        account_id: "default".to_owned(),
        message_id: "imap:default:INBOX:7:42".to_owned(),
        confirm,
    }
}

#[test]
fn deletes_by_flagging_and_expunging() {
    let (state, command) = sent(delete_begin(&tool_config(true), delete_input(true)));
    assert!(matches!(command, Command::Connect { ref account_id } if account_id == "default"));
    let (state, command) = sent(delete_resume(state, done()));
    assert!(matches!(command, Command::SelectReadWrite { ref mailbox } if mailbox == "INBOX"));
    let (state, command) = sent(delete_resume(state, Reply::Epoch(Ok(7))));
    match command {
        Command::Store { uid, query } => {
            assert_eq!(uid, 42);
            assert_eq!(query, "+FLAGS.SILENT (\\Deleted)");
        }
        other => panic!("unexpected command: {:?}", other),
    }
    let (state, command) = sent(delete_resume(state, done()));
    assert!(matches!(command, Command::Expunge { uid: 42 }));
    let result = report(delete_resume(state, done()));
    assert_eq!(result.status, Status::Okay);
    assert!(result.issues.is_empty());
    assert_eq!(result.account_id, "default");
    assert_eq!(result.mailbox, "INBOX");
    assert_eq!(result.message_id, "imap:default:INBOX:7:42");
    assert_eq!(result.steps_attempted, 2);
    assert_eq!(result.steps_succeeded, 2);
}

#[test]
fn write_gate_closes_every_mutation() {
    let config = tool_config(false);
    let message = "invalid input: write tools are disabled; set MAIL_IMAP_WRITE_ENABLED=true";
    assert_eq!(refusal(delete_begin(&config, delete_input(true))).to_string(), message);
    let err = refusal(move_begin(
        &config,
        MoveMessageInput {
            account_id: "default".to_owned(),
            message_id: "imap:default:INBOX:7:42".to_owned(),
            destination_mailbox: "Archive".to_owned(),
        },
    ));
    assert_eq!(err.to_string(), message);
    let err = refusal(copy_begin(&config, copy_input(None)));
    assert_eq!(err.to_string(), message);
    let err = refusal(flags_begin(&config, flags_input(Some(vec!["\\Seen"]), None)));
    assert_eq!(err.to_string(), message);
}

#[test]
fn deletion_must_be_confirmed() {
    let err = refusal(delete_begin(&tool_config(true), delete_input(false)));
    assert!(matches!(err, AppError::InvalidInput(_)));
    assert_eq!(err.to_string(), "invalid input: delete requires confirm=true");
}

#[test]
fn epoch_drift_is_a_conflict_before_any_change() {
    let (state, _) = sent(delete_begin(&tool_config(true), delete_input(true)));
    let (state, _) = sent(delete_resume(state, done()));
    let err = refusal(delete_resume(state, Reply::Epoch(Ok(8))));
    assert!(matches!(err, AppError::Conflict(_)));
    assert_eq!(err.to_string(), "conflict: message uidvalidity no longer matches mailbox");

    let (state, _) = sent(flags_begin(&tool_config(true), flags_input(Some(vec!["\\Seen"]), None)));
    let (state, _) = sent(flags_resume(state, done()));
    let err = refusal(flags_resume(state, Reply::Epoch(Ok(1))));
    assert!(matches!(err, AppError::Conflict(_)));

    let (state, _) = sent(copy_begin(&tool_config(true), copy_input(Some("work"))));
    let (state, command) = sent(copy_resume(&tool_config(true), state, done()));
    assert!(matches!(command, Command::SelectReadOnly { .. }));
    let err = refusal(copy_resume(&tool_config(true), state, Reply::Epoch(Ok(1))));
    assert!(matches!(err, AppError::Conflict(_)));

    let (state, _) = sent(raw_begin(&tool_config(false), raw_input(2048)));
    let (state, _) = sent(raw_resume(state, done()));
    let err = refusal(raw_resume(state, Reply::Epoch(Ok(1))));
    assert!(matches!(err, AppError::Conflict(_)));
}

#[test]
fn a_mailbox_that_cannot_be_selected_ends_the_call() {
    let (state, _) = sent(delete_begin(&tool_config(true), delete_input(true)));
    let (state, _) = sent(delete_resume(state, done()));
    let err = refusal(delete_resume(
        state,
        Reply::Epoch(Err(AppError::NotFound("cannot select mailbox 'INBOX': no".to_owned()))),
    ));
    assert_eq!(err.to_string(), "not found: cannot select mailbox 'INBOX': no");
}

#[test]
fn deletion_reports_what_was_done() {
    let (state, _) = sent(delete_begin(&tool_config(true), delete_input(true)));
    let result = report(delete_resume(state, Reply::Done(Err(AppError::Timeout("tcp connect timeout".to_owned())))));
    assert_eq!(result.status, Status::Failed);
    assert_eq!(result.steps_attempted, 0);
    assert_eq!(result.steps_succeeded, 0);
    assert_eq!(result.issues.len(), 1);
    assert_eq!(result.issues[0].code, "timeout");
    assert_eq!(result.issues[0].stage, "connect_authenticated");
    assert_eq!(result.issues[0].message, "operation timed out: tcp connect timeout");
    assert!(result.issues[0].retryable);
    assert_eq!(result.issues[0].uid, None);
    assert_eq!(result.issues[0].message_id.as_deref(), Some("imap:default:INBOX:7:42"));

    let (state, _) = sent(delete_begin(&tool_config(true), delete_input(true)));
    let (state, _) = sent(delete_resume(state, done()));
    let (state, _) = sent(delete_resume(state, Reply::Epoch(Ok(7))));
    let result = report(delete_resume(state, Reply::Done(Err(broken("store")))));
    assert_eq!(result.status, Status::Failed);
    assert_eq!(result.steps_attempted, 1);
    assert_eq!(result.steps_succeeded, 0);
    assert_eq!(result.issues.len(), 1);
    assert_eq!(result.issues[0].stage, "uid_store_deleted");
    assert_eq!(result.issues[0].uid, Some(42));

    let (state, _) = sent(delete_begin(&tool_config(true), delete_input(true)));
    let (state, _) = sent(delete_resume(state, done()));
    let (state, _) = sent(delete_resume(state, Reply::Epoch(Ok(7))));
    let (state, _) = sent(delete_resume(state, done()));
    let result = report(delete_resume(state, Reply::Done(Err(broken("expunge")))));
    assert_eq!(result.status, Status::Partial);
    assert_eq!(result.steps_attempted, 2);
    assert_eq!(result.steps_succeeded, 1);
    assert_eq!(result.issues[0].stage, "uid_expunge");
    assert_eq!(result.issues[0].code, "internal");
}

#[test]
fn a_reply_of_the_wrong_kind_is_an_error() {
    let (state, _) = sent(delete_begin(&tool_config(true), delete_input(true)));
    let err = refusal(delete_resume(state, Reply::Epoch(Ok(7))));
    assert!(matches!(err, AppError::Internal(_)));
    assert_eq!(
        err.to_string(),
        "internal error: reply does not answer the command that was sent"
    );
}

#[test]
fn requests_are_checked_before_any_command() {
    let config = tool_config(true);
    let mut input = delete_input(true);
    input.account_id = "no such".to_owned();
    let err = refusal(delete_begin(&config, input));
    assert_eq!(err.to_string(), "invalid input: account_id must match [A-Za-z0-9_-]+");
    let mut input = delete_input(true);
    input.account_id = "work".to_owned();
    let err = refusal(delete_begin(&config, input));
    assert_eq!(err.to_string(), "invalid input: message_id account does not match account_id");
    let mut input = delete_input(true);
    input.account_id = "other".to_owned();
    input.message_id = "imap:other:INBOX:7:42".to_owned();
    let err = refusal(delete_begin(&config, input));
    assert!(matches!(err, AppError::NotFound(_)));
    assert_eq!(err.to_string(), "not found: account 'other' is not configured");
}

fn move_input() -> MoveMessageInput {
    MoveMessageInput {
        account_id: "default".to_owned(),
        message_id: "imap:default:INBOX:7:42".to_owned(),
        destination_mailbox: "Archive".to_owned(),
    }
}

#[test]
fn moves_natively_where_the_server_can() {
    let (state, _) = sent(move_begin(&tool_config(true), move_input()));
    let (state, _) = sent(move_resume(state, done()));
    let (state, command) = sent(move_resume(state, Reply::Epoch(Ok(7))));
    assert!(matches!(command, Command::Capabilities));
    let caps = vec![Capability::Imap4rev1, Capability::Atom("MOVE".to_owned())];
    let (state, command) = sent(move_resume(state, Reply::Capabilities(Ok(caps))));
    assert!(matches!(command, Command::Move { uid: 42, ref mailbox } if mailbox == "Archive"));
    let result = report(move_resume(state, done()));
    assert_eq!(result.status, Status::Okay);
    assert_eq!(result.steps_attempted, 1);
    assert_eq!(result.steps_succeeded, 1);
    assert_eq!(result.source_mailbox, "INBOX");
    assert_eq!(result.destination_mailbox, "Archive");
    assert_eq!(result.new_message_id, None);
}

#[test]
fn moves_by_copy_flag_and_expunge_otherwise() {
    let (state, _) = sent(move_begin(&tool_config(true), move_input()));
    let (state, _) = sent(move_resume(state, done()));
    let (state, _) = sent(move_resume(state, Reply::Epoch(Ok(7))));
    let (state, command) = sent(move_resume(state, Reply::Capabilities(Ok(vec![Capability::Imap4rev1]))));
    assert!(matches!(command, Command::Copy { uid: 42, ref mailbox } if mailbox == "Archive"));
    let (state, command) = sent(move_resume(state, done()));
    assert!(matches!(command, Command::Store { uid: 42, ref query } if query == "+FLAGS.SILENT (\\Deleted)"));
    let (state, command) = sent(move_resume(state, done()));
    assert!(matches!(command, Command::Expunge { uid: 42 }));
    let result = report(move_resume(state, done()));
    assert_eq!(result.status, Status::Okay);
    assert_eq!(result.steps_attempted, 3);
    assert_eq!(result.steps_succeeded, 3);
}

#[test]
fn a_move_that_fails_half_way_says_so() {
    let (state, _) = sent(move_begin(&tool_config(true), move_input()));
    let (state, _) = sent(move_resume(state, done()));
    let (state, _) = sent(move_resume(state, Reply::Epoch(Ok(7))));
    let (state, _) = sent(move_resume(state, Reply::Capabilities(Ok(Vec::new()))));
    let (state, _) = sent(move_resume(state, done()));
    let result = report(move_resume(state, Reply::Done(Err(broken("store")))));
    assert_eq!(result.status, Status::Partial);
    assert_eq!(result.steps_attempted, 2);
    assert_eq!(result.steps_succeeded, 1);
    assert_eq!(result.issues[0].stage, "uid_store_deleted");

    let (state, _) = sent(move_begin(&tool_config(true), move_input()));
    let (state, _) = sent(move_resume(state, done()));
    let (state, _) = sent(move_resume(state, Reply::Epoch(Ok(7))));
    let (state, _) = sent(move_resume(state, Reply::Capabilities(Ok(Vec::new()))));
    let result = report(move_resume(state, Reply::Done(Err(broken("copy")))));
    assert_eq!(result.status, Status::Failed);
    assert_eq!(result.steps_attempted, 1);
    assert_eq!(result.steps_succeeded, 0);
    assert_eq!(result.issues[0].stage, "uid_copy");

    let (state, _) = sent(move_begin(&tool_config(true), move_input()));
    let (state, _) = sent(move_resume(state, done()));
    let (state, _) = sent(move_resume(state, Reply::Epoch(Ok(7))));
    let (state, _) = sent(move_resume(state, Reply::Capabilities(Ok(Vec::new()))));
    let (state, _) = sent(move_resume(state, done()));
    let (state, _) = sent(move_resume(state, done()));
    let result = report(move_resume(state, Reply::Done(Err(broken("expunge")))));
    assert_eq!(result.status, Status::Partial);
    assert_eq!(result.steps_attempted, 3);
    assert_eq!(result.steps_succeeded, 2);
    assert_eq!(result.issues[0].stage, "uid_expunge");

    let (state, _) = sent(move_begin(&tool_config(true), move_input()));
    let (state, _) = sent(move_resume(state, done()));
    let (state, _) = sent(move_resume(state, Reply::Epoch(Ok(7))));
    let caps = vec![Capability::Atom("MOVE".to_owned())];
    let (state, _) = sent(move_resume(state, Reply::Capabilities(Ok(caps))));
    let result = report(move_resume(state, Reply::Done(Err(broken("move")))));
    assert_eq!(result.status, Status::Failed);
    assert_eq!(result.steps_attempted, 1);
    assert_eq!(result.steps_succeeded, 0);
    assert_eq!(result.issues[0].stage, "uid_move");

    let (state, _) = sent(move_begin(&tool_config(true), move_input()));
    let (state, _) = sent(move_resume(state, done()));
    let (state, _) = sent(move_resume(state, Reply::Epoch(Ok(7))));
    let result = report(move_resume(state, Reply::Capabilities(Err(AppError::Timeout("CAPABILITY timed out".to_owned())))));
    assert_eq!(result.status, Status::Failed);
    assert_eq!(result.steps_attempted, 0);
    assert_eq!(result.steps_succeeded, 0);
    assert_eq!(result.issues[0].stage, "capabilities");
    assert_eq!(result.issues[0].code, "timeout");

    let (state, _) = sent(move_begin(&tool_config(true), move_input()));
    let result = report(move_resume(state, Reply::Done(Err(AppError::AuthFailed("bad".to_owned())))));
    assert_eq!(result.status, Status::Failed);
    assert_eq!(result.issues[0].code, "auth_failed");
    assert!(!result.issues[0].retryable);
    let mut input = move_input();
    input.destination_mailbox = "bad\rbox".to_owned();
    let err = refusal(move_begin(&tool_config(true), input));
    assert_eq!(err.to_string(), "invalid input: mailbox must not contain control characters");
}

fn copy_input(destination_account: Option<&str>) -> CopyMessageInput {
    CopyMessageInput {
        account_id: "default".to_owned(),
        message_id: "imap:default:INBOX:7:42".to_owned(),
        destination_mailbox: "Archive".to_owned(),
        destination_account_id: destination_account.map(|d| d.to_owned()),
    }
}

#[test]
fn copies_within_an_account_with_one_command() {
    let config = tool_config(true);
    let (state, _) = sent(copy_begin(&config, copy_input(None)));
    let (state, command) = sent(copy_resume(&config, state, done()));
    assert!(matches!(command, Command::SelectReadWrite { ref mailbox } if mailbox == "INBOX"));
    let (state, command) = sent(copy_resume(&config, state, Reply::Epoch(Ok(7))));
    assert!(matches!(command, Command::Copy { uid: 42, ref mailbox } if mailbox == "Archive"));
    let result = report(copy_resume(&config, state, done()));
    assert_eq!(result.status, Status::Okay);
    assert_eq!(result.steps_attempted, 1);
    assert_eq!(result.steps_succeeded, 1);
    assert_eq!(result.source_account_id, "default");
    assert_eq!(result.destination_account_id, "default");
    assert_eq!(result.new_message_id, None);

    let (state, _) = sent(copy_begin(&config, copy_input(Some("default"))));
    let (state, _) = sent(copy_resume(&config, state, done()));
    let (state, _) = sent(copy_resume(&config, state, Reply::Epoch(Ok(7))));
    let result = report(copy_resume(&config, state, Reply::Done(Err(broken("copy")))));
    assert_eq!(result.status, Status::Failed);
    assert_eq!(result.steps_attempted, 1);
    assert_eq!(result.steps_succeeded, 0);
    assert_eq!(result.issues[0].stage, "uid_copy");

    let (state, _) = sent(copy_begin(&config, copy_input(None)));
    let result = report(copy_resume(&config, state, Reply::Done(Err(broken("connect")))));
    assert_eq!(result.status, Status::Failed);
    assert_eq!(result.steps_attempted, 0);
    assert_eq!(result.steps_succeeded, 0);
    assert_eq!(result.issues[0].stage, "connect_authenticated_source");
}

#[test]
fn copies_across_accounts_by_fetch_and_append() {
    let config = tool_config(true);
    let (state, command) = sent(copy_begin(&config, copy_input(Some("work"))));
    assert!(matches!(command, Command::Connect { ref account_id } if account_id == "default"));
    let (state, command) = sent(copy_resume(&config, state, done()));
    assert!(matches!(command, Command::SelectReadOnly { ref mailbox } if mailbox == "INBOX"));
    let (state, command) = sent(copy_resume(&config, state, Reply::Epoch(Ok(7))));
    assert!(matches!(command, Command::FetchRaw { uid: 42 }));
    let (state, command) = sent(copy_resume(&config, state, Reply::Raw(Ok(b"source".to_vec()))));
    assert!(matches!(command, Command::Connect { ref account_id } if account_id == "work"));
    let (state, command) = sent(copy_resume(&config, state, done()));
    match command {
        Command::Append { mailbox, content } => {
            assert_eq!(mailbox, "Archive");
            assert_eq!(content, b"source".to_vec());
        }
        other => panic!("unexpected command: {:?}", other),
    }
    let result = report(copy_resume(&config, state, done()));
    assert_eq!(result.status, Status::Okay);
    assert_eq!(result.steps_attempted, 4);
    assert_eq!(result.steps_succeeded, 4);
    assert_eq!(result.destination_account_id, "work");
    assert_eq!(result.new_message_id, None);
}

#[test]
fn a_copy_across_accounts_stops_at_the_step_that_fails() {
    let config = tool_config(true);
    let (state, _) = sent(copy_begin(&config, copy_input(Some("work"))));
    let (state, _) = sent(copy_resume(&config, state, done()));
    let (state, _) = sent(copy_resume(&config, state, Reply::Epoch(Ok(7))));
    let result = report(copy_resume(&config, state, Reply::Raw(Err(broken("fetch")))));
    assert_eq!(result.status, Status::Partial);
    assert_eq!(result.steps_attempted, 2);
    assert_eq!(result.steps_succeeded, 1);
    assert_eq!(result.issues[0].stage, "fetch_raw_message_source");

    let (state, _) = sent(copy_begin(&config, copy_input(Some("work"))));
    let (state, _) = sent(copy_resume(&config, state, done()));
    let (state, _) = sent(copy_resume(&config, state, Reply::Epoch(Ok(7))));
    let (state, _) = sent(copy_resume(&config, state, Reply::Raw(Ok(b"source".to_vec()))));
    let result = report(copy_resume(&config, state, Reply::Done(Err(broken("connect")))));
    assert_eq!(result.status, Status::Partial);
    assert_eq!(result.steps_attempted, 3);
    assert_eq!(result.steps_succeeded, 2);
    assert_eq!(result.issues[0].stage, "connect_authenticated_destination");
    assert_eq!(result.issues[0].uid, None);

    let (state, _) = sent(copy_begin(&config, copy_input(Some("work"))));
    let (state, _) = sent(copy_resume(&config, state, done()));
    let (state, _) = sent(copy_resume(&config, state, Reply::Epoch(Ok(7))));
    let (state, _) = sent(copy_resume(&config, state, Reply::Raw(Ok(b"source".to_vec()))));
    let (state, _) = sent(copy_resume(&config, state, done()));
    let result = report(copy_resume(&config, state, Reply::Done(Err(broken("append")))));
    assert_eq!(result.status, Status::Partial);
    assert_eq!(result.steps_attempted, 4);
    assert_eq!(result.steps_succeeded, 3);
    assert_eq!(result.issues[0].stage, "append_destination");

    let (state, _) = sent(copy_begin(&config, copy_input(Some("work"))));
    let result = report(copy_resume(&config, state, Reply::Done(Err(broken("connect")))));
    assert_eq!(result.status, Status::Failed);
    assert_eq!(result.steps_attempted, 1);
    assert_eq!(result.steps_succeeded, 0);
    assert_eq!(result.issues[0].stage, "connect_authenticated_source");

    let (state, _) = sent(copy_begin(&config, copy_input(Some("elsewhere"))));
    let (state, _) = sent(copy_resume(&config, state, done()));
    let (state, _) = sent(copy_resume(&config, state, Reply::Epoch(Ok(7))));
    let err = refusal(copy_resume(&config, state, Reply::Raw(Ok(b"source".to_vec()))));
    assert_eq!(err.to_string(), "not found: account 'elsewhere' is not configured");
}

fn flags_input(add: Option<Vec<&str>>, remove: Option<Vec<&str>>) -> UpdateMessageFlagsInput {
    UpdateMessageFlagsInput {
        account_id: "default".to_owned(),
        message_id: "imap:default:INBOX:7:42".to_owned(),
        add_flags: add.map(|v| v.into_iter().map(|f| f.to_owned()).collect()),
        remove_flags: remove.map(|v| v.into_iter().map(|f| f.to_owned()).collect()),
    }
}

#[test]
fn flag_updates_need_flags_that_are_well_formed() {
    let config = tool_config(true);
    for input in [flags_input(None, None), flags_input(Some(Vec::new()), Some(Vec::new()))] {
        let err = refusal(flags_begin(&config, input));
        assert!(matches!(err, AppError::InvalidInput(_)));
        assert_eq!(
            err.to_string(),
            "invalid input: at least one of add_flags/remove_flags is required"
        );
    }
    for bad in ["a b", "a\"b", "(a", "a)"] {
        let err = refusal(flags_begin(&config, flags_input(Some(vec![bad]), None)));
        assert!(matches!(err, AppError::InvalidInput(_)));
        let err = refusal(flags_begin(&config, flags_input(Some(vec!["ok"]), Some(vec![bad]))));
        assert!(err.to_string().starts_with("invalid input: remove_flags contains invalid flag '"));
    }
}

#[test]
fn adds_and_removes_flags_then_fetches_them() {
    let config = tool_config(true);
    let input = flags_input(Some(vec!["\\Seen", "Important"]), Some(vec!["\\Flagged"]));
    let (state, _) = sent(flags_begin(&config, input));
    let (state, command) = sent(flags_resume(state, done()));
    assert!(matches!(command, Command::SelectReadWrite { ref mailbox } if mailbox == "INBOX"));
    let (state, command) = sent(flags_resume(state, Reply::Epoch(Ok(7))));
    assert!(matches!(command, Command::Store { uid: 42, ref query } if query == "+FLAGS.SILENT (\\Seen Important)"));
    let (state, command) = sent(flags_resume(state, done()));
    assert!(matches!(command, Command::Store { uid: 42, ref query } if query == "-FLAGS.SILENT (\\Flagged)"));
    let (state, command) = sent(flags_resume(state, done()));
    assert!(matches!(command, Command::FetchFlags { uid: 42 }));
    let result = report(flags_resume(state, Reply::Flags(Ok(vec!["Seen".to_owned()]))));
    assert_eq!(result.status, Status::Okay);
    assert!(result.issues.is_empty());
    assert_eq!(result.flags, Some(vec!["Seen".to_owned()]));
    assert!(result.applied_add_flags);
    assert!(result.applied_remove_flags);
    assert_eq!(result.requested_add_flags, vec!["\\Seen", "Important"]);
    assert_eq!(result.requested_remove_flags, vec!["\\Flagged"]);
    assert_eq!(result.message_id, "imap:default:INBOX:7:42");
}

#[test]
fn one_store_may_fail_while_the_other_succeeds() {
    let config = tool_config(true);
    let input = flags_input(Some(vec!["\\Seen"]), Some(vec!["\\Flagged"]));
    let (state, _) = sent(flags_begin(&config, input));
    let (state, _) = sent(flags_resume(state, done()));
    let (state, _) = sent(flags_resume(state, Reply::Epoch(Ok(7))));
    let (state, _) = sent(flags_resume(state, Reply::Done(Err(broken("add")))));
    let (state, _) = sent(flags_resume(state, done()));
    let result = report(flags_resume(state, Reply::Flags(Ok(Vec::new()))));
    assert_eq!(result.status, Status::Partial);
    assert!(!result.applied_add_flags);
    assert!(result.applied_remove_flags);
    assert_eq!(result.issues.len(), 1);
    assert_eq!(result.issues[0].stage, "uid_store_add_flags");

    let (state, _) = sent(flags_begin(&config, flags_input(None, Some(vec!["\\Flagged"]))));
    let (state, _) = sent(flags_resume(state, done()));
    let (state, command) = sent(flags_resume(state, Reply::Epoch(Ok(7))));
    assert!(matches!(command, Command::Store { ref query, .. } if query == "-FLAGS.SILENT (\\Flagged)"));
    let (state, _) = sent(flags_resume(state, Reply::Done(Err(broken("remove")))));
    let result = report(flags_resume(state, Reply::Flags(Ok(Vec::new()))));
    assert_eq!(result.status, Status::Failed);
    assert_eq!(result.issues[0].stage, "uid_store_remove_flags");
}

#[test]
fn a_failed_refetch_leaves_the_status_of_the_stores() {
    let config = tool_config(true);
    let (state, _) = sent(flags_begin(&config, flags_input(Some(vec!["\\Seen"]), None)));
    let (state, _) = sent(flags_resume(state, done()));
    let (state, _) = sent(flags_resume(state, Reply::Epoch(Ok(7))));
    let (state, command) = sent(flags_resume(state, done()));
    assert!(matches!(command, Command::FetchFlags { uid: 42 }));
    let result = report(flags_resume(state, Reply::Flags(Err(broken("fetch")))));
    assert_eq!(result.status, Status::Okay);
    assert_eq!(result.flags, None);
    assert_eq!(result.issues.len(), 1);
    assert_eq!(result.issues[0].stage, "fetch_flags");
    assert!(result.applied_add_flags);

    let (state, _) = sent(flags_begin(&config, flags_input(Some(vec!["\\Seen"]), None)));
    let result = report(flags_resume(state, Reply::Done(Err(broken("connect")))));
    assert_eq!(result.status, Status::Failed);
    assert_eq!(result.flags, None);
    assert!(!result.applied_add_flags);
}

fn raw_input(max_bytes: usize) -> GetMessageRawInput {
    GetMessageRawInput {
        account_id: "default".to_owned(),
        message_id: "imap:default:My Box:7:42".to_owned(),
        max_bytes,
    }
}

#[test]
fn hands_out_the_source_in_base64() {
    let config = tool_config(false);
    let (state, _) = sent(raw_begin(&config, raw_input(2048)));
    let (state, command) = sent(raw_resume(state, done()));
    assert!(matches!(command, Command::SelectReadOnly { ref mailbox } if mailbox == "My Box"));
    let (state, command) = sent(raw_resume(state, Reply::Epoch(Ok(7))));
    assert!(matches!(command, Command::FetchRaw { uid: 42 }));
    let result = report(raw_resume(state, Reply::Raw(Ok(vec![0, 159, 255]))));
    assert_eq!(result.status, Status::Okay);
    assert_eq!(result.size_bytes, 3);
    assert_eq!(result.raw_source_base64.as_deref(), Some("AJ//"));
    assert_eq!(result.raw_source_encoding.as_deref(), Some("base64"));
    assert_eq!(result.message_uri, "imap://default/mailbox/My%20Box/message/7/42");
    assert_eq!(result.message_raw_uri, "imap://default/mailbox/My%20Box/message/7/42/raw");
    assert_eq!(result.message_id, "imap:default:My Box:7:42");
}

#[test]
fn refuses_sources_that_are_too_large() {
    let config = tool_config(false);
    for bad in [1023, 1_000_001] {
        let err = refusal(raw_begin(&config, raw_input(bad)));
        assert_eq!(err.to_string(), "invalid input: max_bytes must be in range 1024..1000000");
    }
    let (state, _) = sent(raw_begin(&config, raw_input(1024)));
    let (state, _) = sent(raw_resume(state, done()));
    let (state, _) = sent(raw_resume(state, Reply::Epoch(Ok(7))));
    let err = refusal(raw_resume(state, Reply::Raw(Ok(vec![7; 1025]))));
    assert_eq!(err.to_string(), "invalid input: message exceeds max_bytes; increase max_bytes");

    let (state, _) = sent(raw_begin(&config, raw_input(1024)));
    let (state, _) = sent(raw_resume(state, done()));
    let (state, _) = sent(raw_resume(state, Reply::Epoch(Ok(7))));
    let result = report(raw_resume(state, Reply::Raw(Err(AppError::NotFound("message uid 42 not found".to_owned())))));
    assert_eq!(result.status, Status::Failed);
    assert_eq!(result.size_bytes, 0);
    assert_eq!(result.raw_source_base64, None);
    assert_eq!(result.raw_source_encoding, None);
    assert_eq!(result.issues[0].stage, "fetch_raw_message");
    assert_eq!(result.issues[0].code, "not_found");
}

fn detail_input() -> GetMessageInput {
    GetMessageInput {
        account_id: "default".to_owned(),
        message_id: "imap:default:INBOX:7:42".to_owned(),
        body_max_chars: 2000,
        include_headers: true,
        include_all_headers: false,
        include_html: false,
        extract_attachment_text: false,
        attachment_text_max_chars: None,
    }
}

const PLAIN: &[u8] = b"From: sender@example.com\r\nTo: user@example.com\r\nSubject: Hi\r\nX-Other: 1\r\nDate: Wed, 1 Jan 2025 00:00:00 +0000\r\n\r\nHello there";

#[test]
fn shows_a_message_in_full() {
    let config = tool_config(false);
    let (state, _) = sent(detail_begin(&config, detail_input()));
    let (state, command) = sent(detail_resume(state, done()));
    assert!(matches!(command, Command::SelectReadOnly { ref mailbox } if mailbox == "INBOX"));
    let (state, command) = sent(detail_resume(state, Reply::Epoch(Ok(7))));
    assert!(matches!(command, Command::FetchRaw { uid: 42 }));
    let (state, command) = sent(detail_resume(state, Reply::Raw(Ok(PLAIN.to_vec()))));
    assert!(matches!(command, Command::FetchFlags { uid: 42 }));
    let result = report(detail_resume(state, Reply::Flags(Ok(vec!["Seen".to_owned()]))));
    assert_eq!(result.status, Status::Okay);
    assert!(result.issues.is_empty());
    let message = result.message.expect("message");
    assert_eq!(message.message_id, "imap:default:INBOX:7:42");
    assert_eq!(message.message_uri, "imap://default/mailbox/INBOX/message/7/42");
    assert_eq!(message.message_raw_uri, "imap://default/mailbox/INBOX/message/7/42/raw");
    assert_eq!(message.mailbox, "INBOX");
    assert_eq!(message.uidvalidity, 7);
    assert_eq!(message.uid, 42);
    assert_eq!(message.subject.as_deref(), Some("Hi"));
    assert_eq!(message.from.as_deref(), Some("sender@example.com"));
    assert_eq!(message.to.as_deref(), Some("user@example.com"));
    assert_eq!(message.cc, None);
    assert_eq!(message.date.as_deref(), Some("Wed, 1 Jan 2025 00:00:00 +0000"));
    assert_eq!(message.flags, Some(vec!["Seen".to_owned()]));
    assert_eq!(message.body_text.as_deref(), Some("Hello there"));
    assert_eq!(message.body_html, None);
    assert_eq!(message.attachments.map(|a| a.len()), Some(0));
    let headers = message.headers.expect("headers");
    let keys: Vec<&str> = headers.iter().map(|(k, _)| k.as_str()).collect();
    assert_eq!(keys, vec!["From", "To", "Subject", "Date"]);
}

#[test]
fn a_message_without_flags_is_shown_in_part() {
    let config = tool_config(false);
    let mut input = detail_input();
    input.include_headers = false;
    input.body_max_chars = 100;
    let (state, _) = sent(detail_begin(&config, input));
    let (state, _) = sent(detail_resume(state, done()));
    let (state, _) = sent(detail_resume(state, Reply::Epoch(Ok(7))));
    let (state, _) = sent(detail_resume(state, Reply::Raw(Ok(PLAIN.to_vec()))));
    let result = report(detail_resume(state, Reply::Flags(Err(broken("flags")))));
    assert_eq!(result.status, Status::Partial);
    assert_eq!(result.issues[0].stage, "fetch_flags");
    let message = result.message.expect("message");
    assert_eq!(message.flags, None);
    assert_eq!(message.headers, None);

    let (state, _) = sent(detail_begin(&config, detail_input()));
    let (state, _) = sent(detail_resume(state, done()));
    let (state, _) = sent(detail_resume(state, Reply::Epoch(Ok(7))));
    let result = report(detail_resume(state, Reply::Raw(Err(broken("fetch")))));
    assert_eq!(result.status, Status::Failed);
    assert!(result.message.is_none());
    assert_eq!(result.issues[0].stage, "fetch_raw_message");
    assert_eq!(result.issues[0].uid, Some(42));
}

#[test]
fn message_requests_are_checked() {
    let config = tool_config(false);
    let mut input = detail_input();
    input.body_max_chars = 99;
    let err = refusal(detail_begin(&config, input));
    assert_eq!(err.to_string(), "invalid input: body_max_chars must be in range 100..20000");
    let mut input = detail_input();
    input.attachment_text_max_chars = Some(500);
    let err = refusal(detail_begin(&config, input));
    assert_eq!(
        err.to_string(),
        "invalid input: attachment_text_max_chars requires extract_attachment_text=true"
    );
    let mut input = detail_input();
    input.extract_attachment_text = true;
    input.attachment_text_max_chars = Some(50_001);
    let err = refusal(detail_begin(&config, input));
    assert_eq!(
        err.to_string(),
        "invalid input: attachment_text_max_chars must be in range 100..50000"
    );
}

#[test]
fn the_text_of_pdf_attachments_is_asked_for() {
    let config = tool_config(false);
    let raw = [
        "Subject: With a document",
        "Content-Type: multipart/mixed; boundary=\"b\"",
        "",
        "--b",
        "Content-Type: text/plain",
        "",
        "see attachment",
        "--b",
        "Content-Type: application/pdf",
        "Content-Disposition: attachment; filename=\"one.pdf\"",
        "",
        "first",
        "--b",
        "Content-Type: APPLICATION/PDF",
        "Content-Disposition: attachment; filename=\"two.pdf\"",
        "",
        "second",
        "--b--",
        "",
    ]
    .join("\r\n");
    let mut input = detail_input();
    input.extract_attachment_text = true;
    input.attachment_text_max_chars = Some(100);
    let (state, _) = sent(detail_begin(&config, input));
    let (state, _) = sent(detail_resume(state, done()));
    let (state, _) = sent(detail_resume(state, Reply::Epoch(Ok(7))));
    let (state, command) = sent(detail_resume(state, Reply::Raw(Ok(raw.into_bytes()))));
    assert!(matches!(command, Command::ExtractPdfText { ref content } if content == b"second"));
    let (state, command) = sent(detail_resume(state, Reply::Text(Some("text of two".to_owned()))));
    assert!(matches!(command, Command::ExtractPdfText { ref content } if content == b"first"));
    let (state, command) = sent(detail_resume(state, Reply::Text(None)));
    assert!(matches!(command, Command::FetchFlags { uid: 42 }));
    let result = report(detail_resume(state, Reply::Flags(Ok(Vec::new()))));
    let attachments = result.message.expect("message").attachments.expect("attachments");
    assert_eq!(attachments.len(), 2);
    assert_eq!(attachments[0].filename.as_deref(), Some("one.pdf"));
    assert_eq!(attachments[0].extracted_text, None);
    assert_eq!(attachments[1].content_type, "application/pdf");
    assert_eq!(attachments[1].extracted_text.as_deref(), Some("text of two"));
}

fn account_input(id: &str) -> AccountOnlyInput {
    AccountOnlyInput { account_id: id.to_owned() }
}

#[test]
fn lists_accounts_without_credentials() {
    let result = list_accounts(&tool_config(false));
    assert_eq!(result.accounts.len(), 2);
    assert_eq!(result.accounts[0].account_id, "default");
    assert_eq!(result.accounts[0].host, "default.example.com");
    assert_eq!(result.accounts[1].account_id, "work");
    assert_eq!(result.accounts[1].port, 993);
    assert!(result.accounts[1].secure);
    assert_eq!(result.next_action.tool, "imap_list_mailboxes");
    assert_eq!(argument(&result.next_action, "account_id").as_deref(), Some("default"));
    let mut empty = tool_config(false);
    empty.accounts.clear();
    let result = list_accounts(&empty);
    assert!(result.accounts.is_empty());
    assert_eq!(argument(&result.next_action, "account_id").as_deref(), Some("default"));
}

#[test]
fn probes_an_account() {
    let config = tool_config(false);
    let (state, command) = sent(verify_begin(&config, account_input("work")));
    assert!(matches!(command, Command::Connect { ref account_id } if account_id == "work"));
    let (state, command) = sent(verify_resume(state, done()));
    assert!(matches!(command, Command::Noop));
    let (state, command) = sent(verify_resume(state, done()));
    assert!(matches!(command, Command::Capabilities));
    let caps = vec![
        Capability::Atom("MOVE".to_owned()),
        Capability::Imap4rev1,
        Capability::Auth("PLAIN".to_owned()),
        Capability::Atom("IDLE".to_owned()),
    ];
    let result = report(verify_resume(state, Reply::Capabilities(Ok(caps))));
    assert_eq!(result.status, Status::Okay);
    assert!(result.ok);
    assert_eq!(result.account_id, "work");
    assert_eq!(result.server.host, "work.example.com");
    assert_eq!(
        result.capabilities,
        vec!["Atom(\"IDLE\")", "Atom(\"MOVE\")", "Auth(\"PLAIN\")", "Imap4rev1"]
    );
    assert_eq!(result.next_action.tool, "imap_list_mailboxes");
    assert_eq!(
        result.next_action.instruction,
        "List mailboxes to choose a mailbox for message search."
    );
}

#[test]
fn a_probe_reports_what_it_learned() {
    let config = tool_config(false);
    let (state, _) = sent(verify_begin(&config, account_input("default")));
    let (state, _) = sent(verify_resume(state, done()));
    let (state, _) = sent(verify_resume(state, Reply::Done(Err(broken("noop")))));
    let result = report(verify_resume(state, Reply::Capabilities(Err(AppError::Timeout("CAPABILITY timed out".to_owned())))));
    assert_eq!(result.status, Status::Partial);
    assert!(result.ok);
    assert!(result.capabilities.is_empty());
    let stages: Vec<&str> = result.issues.iter().map(|i| i.stage.as_str()).collect();
    assert_eq!(stages, vec!["noop", "capabilities"]);

    let (state, _) = sent(verify_begin(&config, account_input("default")));
    let result = report(verify_resume(state, Reply::Done(Err(AppError::AuthFailed("no".to_owned())))));
    assert_eq!(result.status, Status::Failed);
    assert!(!result.ok);
    assert_eq!(result.issues[0].stage, "connect_authenticated");
    assert_eq!(result.next_action.tool, "imap_verify_account");
    let err = refusal(verify_begin(&config, account_input("nobody")));
    assert!(matches!(err, AppError::NotFound(_)));
    let many: Vec<Capability> = (0..300).map(|i| Capability::Atom(format!("X{:03}", i))).collect();
    let (state, _) = sent(verify_begin(&config, account_input("default")));
    let (state, _) = sent(verify_resume(state, done()));
    let (state, _) = sent(verify_resume(state, done()));
    let result = report(verify_resume(state, Reply::Capabilities(Ok(many))));
    assert_eq!(result.capabilities.len(), 256);
    assert_eq!(result.capabilities[0], "Atom(\"X000\")");
    assert_eq!(result.capabilities[255], "Atom(\"X255\")");
}

fn mailbox(name: &str) -> MailboxInfo {
    MailboxInfo { name: name.to_owned(), delimiter: Some("/".to_owned()) }
}

#[test]
fn lists_mailboxes_and_suggests_the_inbox() {
    let config = tool_config(false);
    let (state, command) = sent(mailboxes_begin(&config, account_input("default")));
    assert!(matches!(command, Command::Connect { .. }));
    let (state, command) = sent(mailboxes_resume(state, done()));
    assert!(matches!(command, Command::ListMailboxes));
    let items = vec![mailbox("Archive"), mailbox("Inbox"), mailbox("INBOX")];
    let result = report(mailboxes_resume(state, Reply::Mailboxes(Ok(items))));
    assert_eq!(result.status, Status::Okay);
    assert_eq!(result.mailboxes.len(), 3);
    assert_eq!(result.account_id, "default");
    assert_eq!(result.next_action.tool, "imap_search_messages");
    assert_eq!(argument(&result.next_action, "mailbox").as_deref(), Some("Inbox"));
    assert_eq!(argument(&result.next_action, "limit").as_deref(), Some("10"));
    assert_eq!(argument(&result.next_action, "include_snippet").as_deref(), Some("false"));

    let (state, _) = sent(mailboxes_begin(&config, account_input("default")));
    let (state, _) = sent(mailboxes_resume(state, done()));
    let many: Vec<MailboxInfo> = (0..250).map(|i| mailbox(&format!("Box{}", i))).collect();
    let result = report(mailboxes_resume(state, Reply::Mailboxes(Ok(many))));
    assert_eq!(result.mailboxes.len(), 200);
    assert_eq!(argument(&result.next_action, "mailbox").as_deref(), Some("Box0"));

    let (state, _) = sent(mailboxes_begin(&config, account_input("default")));
    let (state, _) = sent(mailboxes_resume(state, done()));
    let result = report(mailboxes_resume(state, Reply::Mailboxes(Err(broken("list")))));
    assert_eq!(result.status, Status::Failed);
    assert!(result.mailboxes.is_empty());
    assert_eq!(result.issues[0].stage, "list_mailboxes");
    assert_eq!(result.next_action.tool, "imap_verify_account");

    let (state, _) = sent(mailboxes_begin(&config, account_input("default")));
    let (state, _) = sent(mailboxes_resume(state, done()));
    let result = report(mailboxes_resume(state, Reply::Mailboxes(Ok(Vec::new()))));
    assert_eq!(result.status, Status::Okay);
    assert_eq!(result.next_action.tool, "imap_verify_account");
}
