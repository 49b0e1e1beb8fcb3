//! Deleting a message: flag it as deleted, then expunge it. The ledger has
//! these two steps; opening the session and selecting the mailbox are no
//! steps of it.

use crate::config::{has_account, unknown_account_message, ServerConfig};
use crate::engine::{
    ensure_uidvalidity_matches, is_connect, is_select_readwrite, is_store, issue_views,
    ledger_status, mutating, single, stale_identity, stray, stray_reply, Command, Reply, Step,
};
use crate::errors::AppError;
use crate::message_id::{decode_spec, encode_spec, Decoded, MessageId};
use crate::models::DeleteMessageInput;
use crate::report::{issue_about, issue_of, Status, ToolIssue, ToolIssueView};
use crate::session::{fails, ErrorKind};
use crate::validate::{
    account_id_fault, identity_fault, parse_and_validate_message_id, require_write_enabled,
    validate_account_id, write_gate_fault,
};
use vstd::prelude::*;

verus! {

/// What a deletion reports.
#[derive(Debug)]
pub struct DeleteResult {
    pub status: Status,
    pub issues: Vec<ToolIssue>,
    pub account_id: String,
    pub mailbox: String,
    pub message_id: String,
    pub steps_attempted: usize,
    pub steps_succeeded: usize,
}

/// What a deletion waits for.
#[derive(Debug, Clone, Copy, PartialEq, Eq, Structural)]
pub enum DeletePhase {
    /// The session is being opened.
    Connecting,
    /// The mailbox is being selected for writing.
    Selecting,
    /// The message is being flagged as deleted.
    Flagging,
    /// The message is being expunged.
    Expunging,
}

/// A deletion under way.
#[derive(Debug)]
pub struct DeleteState {
    pub phase: DeletePhase,
    pub account_id: String,
    pub msg_id: MessageId,
    /// The identity in its text form.
    pub encoded: String,
}

/// The flag store that marks a message as deleted.
pub open spec fn deleted_flag_query() -> Seq<char> {
    "+FLAGS.SILENT (\\Deleted)"@
}

/// Why a deletion cannot begin, if it cannot: the write gate is closed, the
/// account identifier is malformed, the confirmation is missing, the
/// identity is malformed or of another account, or the account is unknown.
pub open spec fn delete_fault(config: ServerConfig, input: DeleteMessageInput) -> Option<
    (ErrorKind, Seq<char>),
> {
    if write_gate_fault(config.write_enabled) is Some {
        Some((ErrorKind::InvalidInput, write_gate_fault(config.write_enabled)->Some_0))
    } else if account_id_fault(input.account_id@) is Some {
        Some((ErrorKind::InvalidInput, account_id_fault(input.account_id@)->Some_0))
    } else if !input.confirm {
        Some((ErrorKind::InvalidInput, "delete requires confirm=true"@))
    } else if identity_fault(input.account_id@, input.message_id@) is Some {
        Some((ErrorKind::InvalidInput, identity_fault(input.account_id@, input.message_id@)->Some_0))
    } else if !has_account(config.accounts@, input.account_id@) {
        Some((ErrorKind::NotFound, unknown_account_message(input.account_id@)))
    } else {
        None
    }
}

/// The result `r` is the report of a deletion that ended in the state
/// `state` with the issues `issues` after `succeeded` of `attempted` steps.
pub open spec fn delete_report(
    r: DeleteResult,
    state: DeleteState,
    issues: Seq<ToolIssueView>,
    attempted: usize,
    succeeded: usize,
) -> bool {
    &&& r.status == ledger_status(issues, succeeded)
    &&& issue_views(r.issues@) == issues
    &&& r.account_id@ == state.account_id@
    &&& r.mailbox@ == state.msg_id.mailbox@
    &&& r.message_id@ == state.encoded@
    &&& r.steps_attempted == attempted
    &&& r.steps_succeeded == succeeded
}

/// The first step of a deletion.
pub open spec fn delete_begun(
    step: Step<DeleteState, DeleteResult>,
    config: ServerConfig,
    input: DeleteMessageInput,
) -> bool {
    match delete_fault(config, input) {
        Some((kind, message)) => step matches Step::Finish(r) && fails(r, kind, message),
        None => {
            &&& step matches Step::Send(s, c)
            &&& is_connect(c, input.account_id@)
            &&& s.phase == DeletePhase::Connecting
            &&& s.account_id@ == input.account_id@
            &&& decode_spec(input.message_id@) == Decoded::Identity(s.msg_id@)
            &&& s.encoded@ == encode_spec(s.msg_id@)
        },
    }
}

/// The step `step` follows the reply `reply` in the state `state`.
///
/// A session that cannot be opened ends the deletion as failed, before any
/// step of the ledger. A mailbox that cannot be selected, or that is in
/// another epoch than the identity, ends it with an error and no report. The
/// ledger counts the store of the flag and the expunge: a store that fails
/// ends the deletion as failed after one step attempted, an expunge that
/// fails ends it in part after one step of two.
pub open spec fn delete_resumed(
    step: Step<DeleteState, DeleteResult>,
    state: DeleteState,
    reply: Reply,
) -> bool {
    match state.phase {
        DeletePhase::Connecting => match reply {
            Reply::Done(Ok(_)) => step matches Step::Send(s, c) && s == (DeleteState {
                phase: DeletePhase::Selecting,
                ..state
            }) && is_select_readwrite(c, state.msg_id.mailbox@),
            Reply::Done(Err(e)) => step matches Step::Finish(Ok(r)) && delete_report(
                r,
                state,
                seq![issue_of("connect_authenticated"@, e, None, Some(state.encoded@))],
                0,
                0,
            ),
            _ => step matches Step::Finish(r) && stray(r),
        },
        DeletePhase::Selecting => match reply {
            Reply::Epoch(Err(e)) => step == Step::<DeleteState, DeleteResult>::Finish(Err(e)),
            Reply::Epoch(Ok(epoch)) => if epoch == state.msg_id.uidvalidity {
                step matches Step::Send(s, c) && s == (DeleteState {
                    phase: DeletePhase::Flagging,
                    ..state
                }) && is_store(c, state.msg_id.uid, deleted_flag_query())
            } else {
                step matches Step::Finish(r) && fails(r, ErrorKind::Conflict, stale_identity())
            },
            _ => step matches Step::Finish(r) && stray(r),
        },
        DeletePhase::Flagging => match reply {
            Reply::Done(Ok(_)) => step matches Step::Send(s, c) && s == (DeleteState {
                phase: DeletePhase::Expunging,
                ..state
            }) && c == (Command::Expunge { uid: state.msg_id.uid }),
            Reply::Done(Err(e)) => step matches Step::Finish(Ok(r)) && delete_report(
                r,
                state,
                seq![
                    issue_of(
                        "uid_store_deleted"@,
                        e,
                        Some(state.msg_id.uid),
                        Some(state.encoded@),
                    ),
                ],
                1,
                0,
            ),
            _ => step matches Step::Finish(r) && stray(r),
        },
        DeletePhase::Expunging => match reply {
            Reply::Done(Ok(_)) => step matches Step::Finish(Ok(r)) && delete_report(
                r,
                state,
                Seq::empty(),
                2,
                2,
            ),
            Reply::Done(Err(e)) => step matches Step::Finish(Ok(r)) && delete_report(
                r,
                state,
                seq![issue_of("uid_expunge"@, e, Some(state.msg_id.uid), Some(state.encoded@))],
                2,
                1,
            ),
            _ => step matches Step::Finish(r) && stray(r),
        },
    }
}

fn delete_finish(state: DeleteState, issues: Vec<ToolIssue>, attempted: usize, succeeded: usize) -> (r:
    DeleteResult)
    ensures
        delete_report(r, state, issue_views(issues@), attempted, succeeded),
{
    let status = crate::report::status_from_issue_and_counts(&issues, succeeded > 0);
    DeleteResult {
        status,
        issues,
        account_id: state.account_id,
        mailbox: state.msg_id.mailbox,
        message_id: state.encoded,
        steps_attempted: attempted,
        steps_succeeded: succeeded,
    }
}

/// Begins a deletion: checks the request and asks for a session.
pub fn delete_begin(config: &ServerConfig, input: DeleteMessageInput) -> (step: Step<
    DeleteState,
    DeleteResult,
>)
    ensures
        delete_begun(step, *config, input),
{
    match require_write_enabled(config) {
        Ok(()) => {},
        Err(e) => {
            return Step::Finish(Err(e));
        },
    }
    match validate_account_id(input.account_id.as_str()) {
        Ok(()) => {},
        Err(e) => {
            return Step::Finish(Err(e));
        },
    }
    if !input.confirm {
        return Step::Finish(Err(AppError::invalid("delete requires confirm=true")));
    }
    let msg_id = match parse_and_validate_message_id(
        input.account_id.as_str(),
        input.message_id.as_str(),
    ) {
        Ok(id) => id,
        Err(e) => {
            return Step::Finish(Err(e));
        },
    };
    match config.get_account(input.account_id.as_str()) {
        Ok(_) => {},
        Err(e) => {
            return Step::Finish(Err(e));
        },
    }
    let encoded = msg_id.encode();
    let command = Command::Connect { account_id: input.account_id.clone() };
    Step::Send(
        DeleteState { phase: DeletePhase::Connecting, account_id: input.account_id, msg_id, encoded },
        command,
    )
}

/// Takes a deletion one step further with the reply to its last command.
pub fn delete_resume(state: DeleteState, reply: Reply) -> (step: Step<DeleteState, DeleteResult>)
    ensures
        delete_resumed(step, state, reply),
{
    match state.phase {
        DeletePhase::Connecting => match reply {
            Reply::Done(Ok(_)) => {
                let command = Command::SelectReadWrite { mailbox: state.msg_id.mailbox.clone() };
                Step::Send(DeleteState { phase: DeletePhase::Selecting, ..state }, command)
            },
            Reply::Done(Err(e)) => {
                let issue = issue_about(
                    "connect_authenticated",
                    &e,
                    None,
                    Some(state.encoded.as_str()),
                );
                Step::Finish(Ok(delete_finish(state, single(issue), 0, 0)))
            },
            _ => Step::Finish(Err(stray_reply())),
        },
        DeletePhase::Selecting => match reply {
            Reply::Epoch(selected) => match ensure_uidvalidity_matches(&state.msg_id, selected) {
                Err(e) => Step::Finish(Err(e)),
                Ok(()) => {
                    let command = Command::Store {
                        uid: state.msg_id.uid,
                        query: "+FLAGS.SILENT (\\Deleted)".to_owned(),
                    };
                    Step::Send(DeleteState { phase: DeletePhase::Flagging, ..state }, command)
                },
            },
            _ => Step::Finish(Err(stray_reply())),
        },
        DeletePhase::Flagging => match reply {
            Reply::Done(Ok(_)) => {
                let command = Command::Expunge { uid: state.msg_id.uid };
                Step::Send(DeleteState { phase: DeletePhase::Expunging, ..state }, command)
            },
            Reply::Done(Err(e)) => {
                let issue = issue_about(
                    "uid_store_deleted",
                    &e,
                    Some(state.msg_id.uid),
                    Some(state.encoded.as_str()),
                );
                Step::Finish(Ok(delete_finish(state, single(issue), 1, 0)))
            },
            _ => Step::Finish(Err(stray_reply())),
        },
        DeletePhase::Expunging => match reply {
            Reply::Done(Ok(_)) => {
                let issues: Vec<ToolIssue> = Vec::new();
                assert(issue_views(issues@) =~= Seq::<ToolIssueView>::empty());
                Step::Finish(Ok(delete_finish(state, issues, 2, 2)))
            },
            Reply::Done(Err(e)) => {
                let issue = issue_about(
                    "uid_expunge",
                    &e,
                    Some(state.msg_id.uid),
                    Some(state.encoded.as_str()),
                );
                Step::Finish(Ok(delete_finish(state, single(issue), 2, 1)))
            },
            _ => Step::Finish(Err(stray_reply())),
        },
    }
}

/// In these phases the epoch of the mailbox has been found to be that of
/// the identity.
pub open spec fn delete_epoch_confirmed(phase: DeletePhase) -> bool {
    phase == DeletePhase::Flagging || phase == DeletePhase::Expunging
}

/// A deletion with the write gate closed is rejected as invalid input before
/// any command is named.
pub proof fn lemma_delete_needs_write_gate(
    step: Step<DeleteState, DeleteResult>,
    config: ServerConfig,
    input: DeleteMessageInput,
)
    requires
        delete_begun(step, config, input),
        !config.write_enabled,
    ensures
        step matches Step::Finish(r) && r is Err && r->Err_0 is InvalidInput,
{
}

/// A deletion sends a command that changes a mailbox only once the epoch of
/// the mailbox has been found to be that of the identity, and an epoch that
/// differs ends it with a `Conflict`.
pub proof fn lemma_delete_checks_epoch(
    step: Step<DeleteState, DeleteResult>,
    state: DeleteState,
    reply: Reply,
)
    requires
        delete_resumed(step, state, reply),
    ensures
        step matches Step::Send(s, c) ==> (mutating(c) ==> delete_epoch_confirmed(s.phase)),
        step matches Step::Send(s, c) ==> (delete_epoch_confirmed(s.phase)
            ==> delete_epoch_confirmed(state.phase) || reply == Reply::Epoch(
            Ok(state.msg_id.uidvalidity),
        )),
        state.phase == DeletePhase::Selecting && (reply matches Reply::Epoch(Ok(epoch)) && epoch
            != state.msg_id.uidvalidity) ==> (step matches Step::Finish(r) && r is Err
            && r->Err_0 is Conflict),
{
}

/// The report of a deletion has the status that its ledger gives, and
/// counts no more successes than attempts, of two steps at most.
pub proof fn lemma_delete_ledger(
    step: Step<DeleteState, DeleteResult>,
    state: DeleteState,
    reply: Reply,
)
    requires
        delete_resumed(step, state, reply),
    ensures
        step matches Step::Finish(Ok(r)) ==> r.status == ledger_status(
            issue_views(r.issues@),
            r.steps_succeeded,
        ) && r.steps_succeeded <= r.steps_attempted && r.steps_attempted <= 2,
{
}

} // verus!
