//! Moving a message within an account: with the native command where the
//! server announces it, else by copy, flag and expunge. Which of the two is
//! decided once, after one capability query.
//!
//! The ledger counts the commands that change a mailbox: one step for the
//! native move, three for copy, flag and expunge. Opening the session,
//! selecting the mailbox and the capability query are no steps of it.

use crate::config::{has_account, unknown_account_message, ServerConfig};
use crate::delete::deleted_flag_query;
use crate::engine::{
    ensure_uidvalidity_matches, is_connect, is_copy, is_move_to, is_select_readwrite, is_store,
    issue_views, ledger_status, mutating, single, stale_identity, stray, stray_reply, Command,
    Reply, Step,
};
use crate::errors::AppError;
use crate::message_id::{decode_spec, encode_spec, Decoded, MessageId};
use crate::models::MoveMessageInput;
use crate::report::{issue_about, issue_of, Status, ToolIssue, ToolIssueView};
use crate::session::{announces_move, fails, has_move, ErrorKind};
use crate::validate::{
    account_id_fault, identity_fault, mailbox_fault, parse_and_validate_message_id,
    require_write_enabled, validate_account_id, validate_mailbox, write_gate_fault,
};
use vstd::prelude::*;

verus! {

/// What a move reports. The identity of the message in its new mailbox is
/// never known: the protocol does not tell it.
#[derive(Debug)]
pub struct MoveResult {
    pub status: Status,
    pub issues: Vec<ToolIssue>,
    pub account_id: String,
    pub source_mailbox: String,
    pub destination_mailbox: String,
    pub message_id: String,
    pub new_message_id: Option<String>,
    pub steps_attempted: usize,
    pub steps_succeeded: usize,
}

/// What a move waits for.
#[derive(Debug, Clone, Copy, PartialEq, Eq, Structural)]
pub enum MovePhase {
    /// The session is being opened.
    Connecting,
    /// The source mailbox is being selected for writing.
    Selecting,
    /// The capabilities of the server are being asked for.
    Probing,
    /// The native move is under way.
    Moving,
    /// The copy that stands in for a native move is under way.
    Copying,
    /// The message that was copied is being flagged as deleted.
    Flagging,
    /// The message that was copied is being expunged.
    Expunging,
}

/// A move under way.
#[derive(Debug)]
pub struct MoveState {
    pub phase: MovePhase,
    pub account_id: String,
    pub msg_id: MessageId,
    /// The identity in its text form.
    pub encoded: String,
    pub destination_mailbox: String,
}

/// Why a move cannot begin, if it cannot: the write gate is closed, the
/// account identifier or the destination mailbox is malformed, the identity
/// is malformed or of another account, or the account is unknown.
pub open spec fn move_fault(config: ServerConfig, input: MoveMessageInput) -> Option<
    (ErrorKind, Seq<char>),
> {
    if write_gate_fault(config.write_enabled) is Some {
        Some((ErrorKind::InvalidInput, write_gate_fault(config.write_enabled)->Some_0))
    } else if account_id_fault(input.account_id@) is Some {
        Some((ErrorKind::InvalidInput, account_id_fault(input.account_id@)->Some_0))
    } else if mailbox_fault(input.destination_mailbox@) is Some {
        Some((ErrorKind::InvalidInput, mailbox_fault(input.destination_mailbox@)->Some_0))
    } else if identity_fault(input.account_id@, input.message_id@) is Some {
        Some((ErrorKind::InvalidInput, identity_fault(input.account_id@, input.message_id@)->Some_0))
    } else if !has_account(config.accounts@, input.account_id@) {
        Some((ErrorKind::NotFound, unknown_account_message(input.account_id@)))
    } else {
        None
    }
}

/// The result `r` is the report of a move that ended in the state `state`
/// with the issues `issues` after `succeeded` of `attempted` steps.
pub open spec fn move_report(
    r: MoveResult,
    state: MoveState,
    issues: Seq<ToolIssueView>,
    attempted: usize,
    succeeded: usize,
) -> bool {
    &&& r.status == ledger_status(issues, succeeded)
    &&& issue_views(r.issues@) == issues
    &&& r.account_id@ == state.account_id@
    &&& r.source_mailbox@ == state.msg_id.mailbox@
    &&& r.destination_mailbox@ == state.destination_mailbox@
    &&& r.message_id@ == state.encoded@
    &&& r.new_message_id is None
    &&& r.steps_attempted == attempted
    &&& r.steps_succeeded == succeeded
}

/// The first step of a move.
pub open spec fn move_begun(
    step: Step<MoveState, MoveResult>,
    config: ServerConfig,
    input: MoveMessageInput,
) -> bool {
    match move_fault(config, input) {
        Some((kind, message)) => step matches Step::Finish(r) && fails(r, kind, message),
        None => {
            &&& step matches Step::Send(s, c)
            &&& is_connect(c, input.account_id@)
            &&& s.phase == MovePhase::Connecting
            &&& s.account_id@ == input.account_id@
            &&& s.destination_mailbox@ == input.destination_mailbox@
            &&& decode_spec(input.message_id@) == Decoded::Identity(s.msg_id@)
            &&& s.encoded@ == encode_spec(s.msg_id@)
        },
    }
}

/// The issue of the step `stage` that failed with `e` on the message of the
/// move.
pub open spec fn move_issue(stage: Seq<char>, e: AppError, state: MoveState) -> ToolIssueView {
    issue_of(stage, e, Some(state.msg_id.uid), Some(state.encoded@))
}

/// The move goes on in the phase `phase` with a command that `sent`
/// describes.
pub open spec fn move_goes_on(
    step: Step<MoveState, MoveResult>,
    state: MoveState,
    phase: MovePhase,
    sent: spec_fn(Command) -> bool,
) -> bool {
    step matches Step::Send(s, c) && s == (MoveState { phase, ..state }) && sent(c)
}

/// The move ends with a report of `succeeded` of `attempted` steps and the
/// issues `issues`.
pub open spec fn move_ends(
    step: Step<MoveState, MoveResult>,
    state: MoveState,
    issues: Seq<ToolIssueView>,
    attempted: usize,
    succeeded: usize,
) -> bool {
    step matches Step::Finish(Ok(r)) && move_report(r, state, issues, attempted, succeeded)
}

/// The step `step` follows the reply `reply` in the state `state`.
///
/// A session that cannot be opened, or a server that does not tell its
/// capabilities, ends the move as failed before any step of the ledger. A
/// mailbox that cannot be selected, or that is in another epoch than the
/// identity, ends it with an error and no report. Every step of the ledger
/// that fails ends the move with a report of what was done: a failure after
/// the copy leaves the message in both mailboxes, and the report says so.
pub open spec fn move_resumed(step: Step<MoveState, MoveResult>, state: MoveState, reply: Reply) -> bool {
    match state.phase {
        MovePhase::Connecting => match reply {
            Reply::Done(Ok(_)) => move_goes_on(
                step,
                state,
                MovePhase::Selecting,
                |c: Command| is_select_readwrite(c, state.msg_id.mailbox@),
            ),
            Reply::Done(Err(e)) => move_ends(
                step,
                state,
                seq![issue_of("connect_authenticated"@, e, None, Some(state.encoded@))],
                0,
                0,
            ),
            _ => step matches Step::Finish(r) && stray(r),
        },
        MovePhase::Selecting => match reply {
            Reply::Epoch(Err(e)) => step == Step::<MoveState, MoveResult>::Finish(Err(e)),
            Reply::Epoch(Ok(epoch)) => if epoch == state.msg_id.uidvalidity {
                move_goes_on(step, state, MovePhase::Probing, |c: Command| c == Command::Capabilities)
            } else {
                step matches Step::Finish(r) && fails(r, ErrorKind::Conflict, stale_identity())
            },
            _ => step matches Step::Finish(r) && stray(r),
        },
        MovePhase::Probing => match reply {
            Reply::Capabilities(Ok(caps)) => if announces_move(caps@) {
                move_goes_on(
                    step,
                    state,
                    MovePhase::Moving,
                    |c: Command| is_move_to(c, state.msg_id.uid, state.destination_mailbox@),
                )
            } else {
                move_goes_on(
                    step,
                    state,
                    MovePhase::Copying,
                    |c: Command| is_copy(c, state.msg_id.uid, state.destination_mailbox@),
                )
            },
            Reply::Capabilities(Err(e)) => move_ends(
                step,
                state,
                seq![move_issue("capabilities"@, e, state)],
                0,
                0,
            ),
            _ => step matches Step::Finish(r) && stray(r),
        },
        MovePhase::Moving => match reply {
            Reply::Done(Ok(_)) => move_ends(step, state, Seq::empty(), 1, 1),
            Reply::Done(Err(e)) => move_ends(step, state, seq![move_issue("uid_move"@, e, state)], 1, 0),
            _ => step matches Step::Finish(r) && stray(r),
        },
        MovePhase::Copying => match reply {
            Reply::Done(Ok(_)) => move_goes_on(
                step,
                state,
                MovePhase::Flagging,
                |c: Command| is_store(c, state.msg_id.uid, deleted_flag_query()),
            ),
            Reply::Done(Err(e)) => move_ends(step, state, seq![move_issue("uid_copy"@, e, state)], 1, 0),
            _ => step matches Step::Finish(r) && stray(r),
        },
        MovePhase::Flagging => match reply {
            Reply::Done(Ok(_)) => move_goes_on(
                step,
                state,
                MovePhase::Expunging,
                |c: Command| c == (Command::Expunge { uid: state.msg_id.uid }),
            ),
            Reply::Done(Err(e)) => move_ends(
                step,
                state,
                seq![move_issue("uid_store_deleted"@, e, state)],
                2,
                1,
            ),
            _ => step matches Step::Finish(r) && stray(r),
        },
        MovePhase::Expunging => match reply {
            Reply::Done(Ok(_)) => move_ends(step, state, Seq::empty(), 3, 3),
            Reply::Done(Err(e)) => move_ends(
                step,
                state,
                seq![move_issue("uid_expunge"@, e, state)],
                3,
                2,
            ),
            _ => step matches Step::Finish(r) && stray(r),
        },
    }
}

fn move_finish(state: MoveState, issues: Vec<ToolIssue>, attempted: usize, succeeded: usize) -> (r:
    MoveResult)
    ensures
        move_report(r, state, issue_views(issues@), attempted, succeeded),
{
    let status = crate::report::status_from_issue_and_counts(&issues, succeeded > 0);
    MoveResult {
        status,
        issues,
        account_id: state.account_id,
        source_mailbox: state.msg_id.mailbox,
        destination_mailbox: state.destination_mailbox,
        message_id: state.encoded,
        new_message_id: None,
        steps_attempted: attempted,
        steps_succeeded: succeeded,
    }
}

fn move_fail(state: MoveState, stage: &str, e: AppError, attempted: usize, succeeded: usize) -> (step:
    Step<MoveState, MoveResult>)
    ensures
        move_ends(step, state, seq![move_issue(stage@, e, state)], attempted, succeeded),
{
    let issue = issue_about(stage, &e, Some(state.msg_id.uid), Some(state.encoded.as_str()));
    Step::Finish(Ok(move_finish(state, single(issue), attempted, succeeded)))
}

fn move_done(state: MoveState, steps: usize) -> (step: Step<MoveState, MoveResult>)
    ensures
        move_ends(step, state, Seq::empty(), steps, steps),
{
    let issues: Vec<ToolIssue> = Vec::new();
    assert(issue_views(issues@) =~= Seq::<ToolIssueView>::empty());
    Step::Finish(Ok(move_finish(state, issues, steps, steps)))
}

/// Begins a move: checks the request and asks for a session.
pub fn move_begin(config: &ServerConfig, input: MoveMessageInput) -> (step: Step<
    MoveState,
    MoveResult,
>)
    ensures
        move_begun(step, *config, input),
{
    match require_write_enabled(config) {
        Ok(()) => {},
        Err(e) => {
            return Step::Finish(Err(e));
        },
    }
    match validate_account_id(input.account_id.as_str()) {
        Ok(()) => {},
        Err(e) => {
            return Step::Finish(Err(e));
        },
    }
    match validate_mailbox(input.destination_mailbox.as_str()) {
        Ok(()) => {},
        Err(e) => {
            return Step::Finish(Err(e));
        },
    }
    let msg_id = match parse_and_validate_message_id(
        input.account_id.as_str(),
        input.message_id.as_str(),
    ) {
        Ok(id) => id,
        Err(e) => {
            return Step::Finish(Err(e));
        },
    };
    match config.get_account(input.account_id.as_str()) {
        Ok(_) => {},
        Err(e) => {
            return Step::Finish(Err(e));
        },
    }
    let encoded = msg_id.encode();
    let command = Command::Connect { account_id: input.account_id.clone() };
    Step::Send(
        MoveState {
            phase: MovePhase::Connecting,
            account_id: input.account_id,
            msg_id,
            encoded,
            destination_mailbox: input.destination_mailbox,
        },
        command,
    )
}

/// Takes a move one step further with the reply to its last command.
pub fn move_resume(state: MoveState, reply: Reply) -> (step: Step<MoveState, MoveResult>)
    ensures
        move_resumed(step, state, reply),
{
    match state.phase {
        MovePhase::Connecting => match reply {
            Reply::Done(Ok(_)) => {
                let command = Command::SelectReadWrite { mailbox: state.msg_id.mailbox.clone() };
                Step::Send(MoveState { phase: MovePhase::Selecting, ..state }, command)
            },
            Reply::Done(Err(e)) => {
                let issue = issue_about(
                    "connect_authenticated",
                    &e,
                    None,
                    Some(state.encoded.as_str()),
                );
                Step::Finish(Ok(move_finish(state, single(issue), 0, 0)))
            },
            _ => Step::Finish(Err(stray_reply())),
        },
        MovePhase::Selecting => match reply {
            Reply::Epoch(selected) => match ensure_uidvalidity_matches(&state.msg_id, selected) {
                Err(e) => Step::Finish(Err(e)),
                Ok(()) => Step::Send(
                    MoveState { phase: MovePhase::Probing, ..state },
                    Command::Capabilities,
                ),
            },
            _ => Step::Finish(Err(stray_reply())),
        },
        MovePhase::Probing => match reply {
            Reply::Capabilities(Ok(caps)) => {
                if has_move(&caps) {
                    let command = Command::Move {
                        uid: state.msg_id.uid,
                        mailbox: state.destination_mailbox.clone(),
                    };
                    Step::Send(MoveState { phase: MovePhase::Moving, ..state }, command)
                } else {
                    let command = Command::Copy {
                        uid: state.msg_id.uid,
                        mailbox: state.destination_mailbox.clone(),
                    };
                    Step::Send(MoveState { phase: MovePhase::Copying, ..state }, command)
                }
            },
            Reply::Capabilities(Err(e)) => move_fail(state, "capabilities", e, 0, 0),
            _ => Step::Finish(Err(stray_reply())),
        },
        MovePhase::Moving => match reply {
            Reply::Done(Ok(_)) => move_done(state, 1),
            Reply::Done(Err(e)) => move_fail(state, "uid_move", e, 1, 0),
            _ => Step::Finish(Err(stray_reply())),
        },
        MovePhase::Copying => match reply {
            Reply::Done(Ok(_)) => {
                let command = Command::Store {
                    uid: state.msg_id.uid,
                    query: "+FLAGS.SILENT (\\Deleted)".to_owned(),
                };
                Step::Send(MoveState { phase: MovePhase::Flagging, ..state }, command)
            },
            Reply::Done(Err(e)) => move_fail(state, "uid_copy", e, 1, 0),
            _ => Step::Finish(Err(stray_reply())),
        },
        MovePhase::Flagging => match reply {
            Reply::Done(Ok(_)) => {
                let command = Command::Expunge { uid: state.msg_id.uid };
                Step::Send(MoveState { phase: MovePhase::Expunging, ..state }, command)
            },
            Reply::Done(Err(e)) => move_fail(state, "uid_store_deleted", e, 2, 1),
            _ => Step::Finish(Err(stray_reply())),
        },
        MovePhase::Expunging => match reply {
            Reply::Done(Ok(_)) => move_done(state, 3),
            Reply::Done(Err(e)) => move_fail(state, "uid_expunge", e, 3, 2),
            _ => Step::Finish(Err(stray_reply())),
        },
    }
}

/// In these phases the epoch of the mailbox has been found to be that of
/// the identity.
pub open spec fn move_epoch_confirmed(phase: MovePhase) -> bool {
    phase != MovePhase::Connecting && phase != MovePhase::Selecting
}

/// A move with the write gate closed is rejected as invalid input before
/// any command is named.
pub proof fn lemma_move_needs_write_gate(
    step: Step<MoveState, MoveResult>,
    config: ServerConfig,
    input: MoveMessageInput,
)
    requires
        move_begun(step, config, input),
        !config.write_enabled,
    ensures
        step matches Step::Finish(r) && r is Err && r->Err_0 is InvalidInput,
{
}

/// A move sends a command that changes a mailbox only once the epoch of the
/// mailbox has been found to be that of the identity, and an epoch that
/// differs ends it with a `Conflict`.
pub proof fn lemma_move_checks_epoch(step: Step<MoveState, MoveResult>, state: MoveState, reply: Reply)
    requires
        move_resumed(step, state, reply),
    ensures
        step matches Step::Send(s, c) ==> (mutating(c) ==> move_epoch_confirmed(s.phase)),
        step matches Step::Send(s, c) ==> (move_epoch_confirmed(s.phase) ==> move_epoch_confirmed(
            state.phase,
        ) || reply == Reply::Epoch(Ok(state.msg_id.uidvalidity))),
        state.phase == MovePhase::Selecting && (reply matches Reply::Epoch(Ok(epoch)) && epoch
            != state.msg_id.uidvalidity) ==> (step matches Step::Finish(r) && r is Err
            && r->Err_0 is Conflict),
{
}

/// The report of a move has the status that its ledger gives, and counts no
/// more successes than attempts, of three steps at most.
pub proof fn lemma_move_ledger(step: Step<MoveState, MoveResult>, state: MoveState, reply: Reply)
    requires
        move_resumed(step, state, reply),
    ensures
        step matches Step::Finish(Ok(r)) ==> r.status == ledger_status(
            issue_views(r.issues@),
            r.steps_succeeded,
        ) && r.steps_succeeded <= r.steps_attempted && r.steps_attempted <= 3,
{
}

} // verus!
