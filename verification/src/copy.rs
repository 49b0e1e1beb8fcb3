//! Copying a message: within one account with one command, across accounts
//! by fetching the source and appending it to the destination. A copy across
//! accounts that fails half-way is not undone; the report says which step
//! failed.
//!
//! The ledger of a copy within one account has one step, the copy command.
//! The ledger of a copy across accounts has four: opening the source
//! session, fetching the source, opening the destination session, and
//! appending. Selecting the source mailbox is a step of neither.

use crate::config::{has_account, unknown_account_message, ServerConfig};
use crate::engine::{
    ensure_uidvalidity_matches, is_append, is_connect, is_copy, is_select_readonly,
    is_select_readwrite, issue_views, ledger_status, mutating, single, stale_identity, stray,
    stray_reply, Command, Reply, Step,
};
use crate::errors::AppError;
use crate::message_id::{decode_spec, encode_spec, Decoded, MessageId};
use crate::models::CopyMessageInput;
use crate::report::{issue_about, issue_of, Status, ToolIssue, ToolIssueView};
use crate::session::{fails, ErrorKind};
use crate::text::str_eq;
use crate::validate::{
    account_id_fault, identity_fault, mailbox_fault, parse_and_validate_message_id,
    require_write_enabled, validate_account_id, validate_mailbox, write_gate_fault,
};
use vstd::prelude::*;

verus! {

/// What a copy reports. The identity of the copy is never known: the
/// protocol does not tell it.
#[derive(Debug)]
pub struct CopyResult {
    pub status: Status,
    pub issues: Vec<ToolIssue>,
    pub source_account_id: String,
    pub destination_account_id: String,
    pub source_mailbox: String,
    pub destination_mailbox: String,
    pub message_id: String,
    pub new_message_id: Option<String>,
    pub steps_attempted: usize,
    pub steps_succeeded: usize,
}

/// What a copy waits for.
#[derive(Debug, Clone, Copy, PartialEq, Eq, Structural)]
pub enum CopyPhase {
    /// The session of the source account is being opened.
    Connecting,
    /// The source mailbox is being selected: for writing if the copy stays
    /// in the account, else for reading only.
    Selecting,
    /// The copy within the account is under way.
    Copying,
    /// The source of the message is being fetched.
    Fetching,
    /// The session of the destination account is being opened.
    ConnectingDestination,
    /// The source of the message is being appended to the destination.
    Appending,
}

/// A copy under way.
#[derive(Debug)]
pub struct CopyState {
    pub phase: CopyPhase,
    pub account_id: String,
    pub destination_account_id: String,
    pub msg_id: MessageId,
    /// The identity in its text form.
    pub encoded: String,
    pub destination_mailbox: String,
    /// The source of the message, once it has been fetched.
    pub raw: Vec<u8>,
}

/// The account that a copy goes to: the one that the request names, else the
/// source account.
pub open spec fn copy_destination(input: CopyMessageInput) -> Seq<char> {
    match input.destination_account_id {
        Some(d) => d@,
        None => input.account_id@,
    }
}

/// Why a copy cannot begin, if it cannot: the write gate is closed, an
/// account identifier or the destination mailbox is malformed, the identity
/// is malformed or of another account, or the source account is unknown.
pub open spec fn copy_fault(config: ServerConfig, input: CopyMessageInput) -> Option<
    (ErrorKind, Seq<char>),
> {
    if write_gate_fault(config.write_enabled) is Some {
        Some((ErrorKind::InvalidInput, write_gate_fault(config.write_enabled)->Some_0))
    } else if account_id_fault(input.account_id@) is Some {
        Some((ErrorKind::InvalidInput, account_id_fault(input.account_id@)->Some_0))
    } else if mailbox_fault(input.destination_mailbox@) is Some {
        Some((ErrorKind::InvalidInput, mailbox_fault(input.destination_mailbox@)->Some_0))
    } else if account_id_fault(copy_destination(input)) is Some {
        Some((ErrorKind::InvalidInput, account_id_fault(copy_destination(input))->Some_0))
    } else if identity_fault(input.account_id@, input.message_id@) is Some {
        Some((ErrorKind::InvalidInput, identity_fault(input.account_id@, input.message_id@)->Some_0))
    } else if !has_account(config.accounts@, input.account_id@) {
        Some((ErrorKind::NotFound, unknown_account_message(input.account_id@)))
    } else {
        None
    }
}

/// The copy stays within one account.
pub open spec fn same_account(state: CopyState) -> bool {
    state.destination_account_id@ == state.account_id@
}

/// The result `r` is the report of a copy that ended in the state `state`
/// with the issues `issues` after `succeeded` of `attempted` steps.
pub open spec fn copy_report(
    r: CopyResult,
    state: CopyState,
    issues: Seq<ToolIssueView>,
    attempted: usize,
    succeeded: usize,
) -> bool {
    &&& r.status == ledger_status(issues, succeeded)
    &&& issue_views(r.issues@) == issues
    &&& r.source_account_id@ == state.account_id@
    &&& r.destination_account_id@ == state.destination_account_id@
    &&& r.source_mailbox@ == state.msg_id.mailbox@
    &&& r.destination_mailbox@ == state.destination_mailbox@
    &&& r.message_id@ == state.encoded@
    &&& r.new_message_id is None
    &&& r.steps_attempted == attempted
    &&& r.steps_succeeded == succeeded
}

/// The first step of a copy.
pub open spec fn copy_begun(
    step: Step<CopyState, CopyResult>,
    config: ServerConfig,
    input: CopyMessageInput,
) -> bool {
    match copy_fault(config, input) {
        Some((kind, message)) => step matches Step::Finish(r) && fails(r, kind, message),
        None => {
            &&& step matches Step::Send(s, c)
            &&& is_connect(c, input.account_id@)
            &&& s.phase == CopyPhase::Connecting
            &&& s.account_id@ == input.account_id@
            &&& s.destination_account_id@ == copy_destination(input)
            &&& s.destination_mailbox@ == input.destination_mailbox@
            &&& decode_spec(input.message_id@) == Decoded::Identity(s.msg_id@)
            &&& s.encoded@ == encode_spec(s.msg_id@)
        },
    }
}

/// The copy goes on in the phase `phase` with a command that `sent`
/// describes.
pub open spec fn copy_goes_on(
    step: Step<CopyState, CopyResult>,
    state: CopyState,
    phase: CopyPhase,
    sent: spec_fn(Command) -> bool,
) -> bool {
    step matches Step::Send(s, c) && s == (CopyState { phase, ..state }) && sent(c)
}

/// The copy ends with a report of `succeeded` of `attempted` steps and the
/// issues `issues`.
pub open spec fn copy_ends(
    step: Step<CopyState, CopyResult>,
    state: CopyState,
    issues: Seq<ToolIssueView>,
    attempted: usize,
    succeeded: usize,
) -> bool {
    step matches Step::Finish(Ok(r)) && copy_report(r, state, issues, attempted, succeeded)
}

/// The step `step` follows the reply `reply` in the state `state`.
///
/// A source session that cannot be opened ends the copy as failed. A source
/// mailbox that cannot be selected, or that is in another epoch than the
/// identity, ends it with an error and no report; so does a destination
/// account that is unknown. Every other step that fails ends the copy with
/// a report of what was done: a copy command that fails within one account
/// has failed, with one step attempted and none done.
pub open spec fn copy_resumed(
    step: Step<CopyState, CopyResult>,
    config: ServerConfig,
    state: CopyState,
    reply: Reply,
) -> bool {
    match state.phase {
        CopyPhase::Connecting => match reply {
            Reply::Done(Ok(_)) => if same_account(state) {
                copy_goes_on(
                    step,
                    state,
                    CopyPhase::Selecting,
                    |c: Command| is_select_readwrite(c, state.msg_id.mailbox@),
                )
            } else {
                copy_goes_on(
                    step,
                    state,
                    CopyPhase::Selecting,
                    |c: Command| is_select_readonly(c, state.msg_id.mailbox@),
                )
            },
            Reply::Done(Err(e)) => copy_ends(
                step,
                state,
                seq![issue_of("connect_authenticated_source"@, e, None, Some(state.encoded@))],
                if same_account(state) {
                    0
                } else {
                    1
                },
                0,
            ),
            _ => step matches Step::Finish(r) && stray(r),
        },
        CopyPhase::Selecting => match reply {
            Reply::Epoch(Err(e)) => step == Step::<CopyState, CopyResult>::Finish(Err(e)),
            Reply::Epoch(Ok(epoch)) => if epoch != state.msg_id.uidvalidity {
                step matches Step::Finish(r) && fails(r, ErrorKind::Conflict, stale_identity())
            } else if same_account(state) {
                copy_goes_on(
                    step,
                    state,
                    CopyPhase::Copying,
                    |c: Command| is_copy(c, state.msg_id.uid, state.destination_mailbox@),
                )
            } else {
                copy_goes_on(
                    step,
                    state,
                    CopyPhase::Fetching,
                    |c: Command| c == (Command::FetchRaw { uid: state.msg_id.uid }),
                )
            },
            _ => step matches Step::Finish(r) && stray(r),
        },
        CopyPhase::Copying => match reply {
            Reply::Done(Ok(_)) => copy_ends(step, state, Seq::empty(), 1, 1),
            Reply::Done(Err(e)) => copy_ends(
                step,
                state,
                seq![issue_of("uid_copy"@, e, Some(state.msg_id.uid), Some(state.encoded@))],
                1,
                0,
            ),
            _ => step matches Step::Finish(r) && stray(r),
        },
        CopyPhase::Fetching => match reply {
            Reply::Raw(Ok(raw)) => if has_account(config.accounts@, state.destination_account_id@) {
                step matches Step::Send(s, c) && s == (CopyState {
                    phase: CopyPhase::ConnectingDestination,
                    raw,
                    ..state
                }) && is_connect(c, state.destination_account_id@)
            } else {
                step matches Step::Finish(r) && fails(
                    r,
                    ErrorKind::NotFound,
                    unknown_account_message(state.destination_account_id@),
                )
            },
            Reply::Raw(Err(e)) => copy_ends(
                step,
                state,
                seq![
                    issue_of(
                        "fetch_raw_message_source"@,
                        e,
                        Some(state.msg_id.uid),
                        Some(state.encoded@),
                    ),
                ],
                2,
                1,
            ),
            _ => step matches Step::Finish(r) && stray(r),
        },
        CopyPhase::ConnectingDestination => match reply {
            Reply::Done(Ok(_)) => copy_goes_on(
                step,
                state,
                CopyPhase::Appending,
                |c: Command| is_append(c, state.destination_mailbox@, state.raw@),
            ),
            Reply::Done(Err(e)) => copy_ends(
                step,
                state,
                seq![issue_of("connect_authenticated_destination"@, e, None, Some(state.encoded@))],
                3,
                2,
            ),
            _ => step matches Step::Finish(r) && stray(r),
        },
        CopyPhase::Appending => match reply {
            Reply::Done(Ok(_)) => copy_ends(step, state, Seq::empty(), 4, 4),
            Reply::Done(Err(e)) => copy_ends(
                step,
                state,
                seq![issue_of("append_destination"@, e, None, Some(state.encoded@))],
                4,
                3,
            ),
            _ => step matches Step::Finish(r) && stray(r),
        },
    }
}

fn copy_finish(state: CopyState, issues: Vec<ToolIssue>, attempted: usize, succeeded: usize) -> (r:
    CopyResult)
    ensures
        copy_report(r, state, issue_views(issues@), attempted, succeeded),
{
    let status = crate::report::status_from_issue_and_counts(&issues, succeeded > 0);
    CopyResult {
        status,
        issues,
        source_account_id: state.account_id,
        destination_account_id: state.destination_account_id,
        source_mailbox: state.msg_id.mailbox,
        destination_mailbox: state.destination_mailbox,
        message_id: state.encoded,
        new_message_id: None,
        steps_attempted: attempted,
        steps_succeeded: succeeded,
    }
}

fn copy_fail(
    state: CopyState,
    stage: &str,
    e: AppError,
    with_uid: bool,
    attempted: usize,
    succeeded: usize,
) -> (step: Step<CopyState, CopyResult>)
    ensures
        copy_ends(
            step,
            state,
            seq![
                issue_of(
                    stage@,
                    e,
                    if with_uid {
                        Some(state.msg_id.uid)
                    } else {
                        None
                    },
                    Some(state.encoded@),
                ),
            ],
            attempted,
            succeeded,
        ),
{
    let uid = if with_uid {
        Some(state.msg_id.uid)
    } else {
        None
    };
    let issue = issue_about(stage, &e, uid, Some(state.encoded.as_str()));
    Step::Finish(Ok(copy_finish(state, single(issue), attempted, succeeded)))
}

fn copy_done(state: CopyState, steps: usize) -> (step: Step<CopyState, CopyResult>)
    ensures
        copy_ends(step, state, Seq::empty(), steps, steps),
{
    let issues: Vec<ToolIssue> = Vec::new();
    assert(issue_views(issues@) =~= Seq::<ToolIssueView>::empty());
    Step::Finish(Ok(copy_finish(state, issues, steps, steps)))
}

/// Begins a copy: checks the request and asks for a session of the source
/// account.
pub fn copy_begin(config: &ServerConfig, input: CopyMessageInput) -> (step: Step<
    CopyState,
    CopyResult,
>)
    ensures
        copy_begun(step, *config, input),
{
    match require_write_enabled(config) {
        Ok(()) => {},
        Err(e) => {
            return Step::Finish(Err(e));
        },
    }
    match validate_account_id(input.account_id.as_str()) {
        Ok(()) => {},
        Err(e) => {
            return Step::Finish(Err(e));
        },
    }
    match validate_mailbox(input.destination_mailbox.as_str()) {
        Ok(()) => {},
        Err(e) => {
            return Step::Finish(Err(e));
        },
    }
    let destination_account_id = match &input.destination_account_id {
        Some(d) => d.clone(),
        None => input.account_id.clone(),
    };
    match validate_account_id(destination_account_id.as_str()) {
        Ok(()) => {},
        Err(e) => {
            return Step::Finish(Err(e));
        },
    }
    let msg_id = match parse_and_validate_message_id(
        input.account_id.as_str(),
        input.message_id.as_str(),
    ) {
        Ok(id) => id,
        Err(e) => {
            return Step::Finish(Err(e));
        },
    };
    match config.get_account(input.account_id.as_str()) {
        Ok(_) => {},
        Err(e) => {
            return Step::Finish(Err(e));
        },
    }
    let encoded = msg_id.encode();
    let command = Command::Connect { account_id: input.account_id.clone() };
    Step::Send(
        CopyState {
            phase: CopyPhase::Connecting,
            account_id: input.account_id,
            destination_account_id,
            msg_id,
            encoded,
            destination_mailbox: input.destination_mailbox,
            raw: Vec::new(),
        },
        command,
    )
}

/// Takes a copy one step further with the reply to its last command.
pub fn copy_resume(config: &ServerConfig, state: CopyState, reply: Reply) -> (step: Step<
    CopyState,
    CopyResult,
>)
    ensures
        copy_resumed(step, *config, state, reply),
{
    let same = str_eq(state.destination_account_id.as_str(), state.account_id.as_str());
    match state.phase {
        CopyPhase::Connecting => match reply {
            Reply::Done(Ok(_)) => {
                let mailbox = state.msg_id.mailbox.clone();
                let command = if same {
                    Command::SelectReadWrite { mailbox }
                } else {
                    Command::SelectReadOnly { mailbox }
                };
                Step::Send(CopyState { phase: CopyPhase::Selecting, ..state }, command)
            },
            Reply::Done(Err(e)) => {
                let attempted: usize = if same {
                    0
                } else {
                    1
                };
                copy_fail(state, "connect_authenticated_source", e, false, attempted, 0)
            },
            _ => Step::Finish(Err(stray_reply())),
        },
        CopyPhase::Selecting => match reply {
            Reply::Epoch(selected) => match ensure_uidvalidity_matches(&state.msg_id, selected) {
                Err(e) => Step::Finish(Err(e)),
                Ok(()) => if same {
                    let command = Command::Copy {
                        uid: state.msg_id.uid,
                        mailbox: state.destination_mailbox.clone(),
                    };
                    Step::Send(CopyState { phase: CopyPhase::Copying, ..state }, command)
                } else {
                    let command = Command::FetchRaw { uid: state.msg_id.uid };
                    Step::Send(CopyState { phase: CopyPhase::Fetching, ..state }, command)
                },
            },
            _ => Step::Finish(Err(stray_reply())),
        },
        CopyPhase::Copying => match reply {
            Reply::Done(Ok(_)) => copy_done(state, 1),
            Reply::Done(Err(e)) => copy_fail(state, "uid_copy", e, true, 1, 0),
            _ => Step::Finish(Err(stray_reply())),
        },
        CopyPhase::Fetching => match reply {
            Reply::Raw(Ok(raw)) => {
                match config.get_account(state.destination_account_id.as_str()) {
                    Ok(_) => {},
                    Err(e) => {
                        return Step::Finish(Err(e));
                    },
                }
                let command = Command::Connect { account_id: state.destination_account_id.clone() };
                Step::Send(
                    CopyState { phase: CopyPhase::ConnectingDestination, raw, ..state },
                    command,
                )
            },
            Reply::Raw(Err(e)) => copy_fail(state, "fetch_raw_message_source", e, true, 2, 1),
            _ => Step::Finish(Err(stray_reply())),
        },
        CopyPhase::ConnectingDestination => match reply {
            Reply::Done(Ok(_)) => {
                let content = state.raw.clone();
                assert(content@ =~= state.raw@);
                let command = Command::Append {
                    mailbox: state.destination_mailbox.clone(),
                    content,
                };
                Step::Send(CopyState { phase: CopyPhase::Appending, ..state }, command)
            },
            Reply::Done(Err(e)) => copy_fail(
                state,
                "connect_authenticated_destination",
                e,
                false,
                3,
                2,
            ),
            _ => Step::Finish(Err(stray_reply())),
        },
        CopyPhase::Appending => match reply {
            Reply::Done(Ok(_)) => copy_done(state, 4),
            Reply::Done(Err(e)) => copy_fail(state, "append_destination", e, false, 4, 3),
            _ => Step::Finish(Err(stray_reply())),
        },
    }
}

/// In these phases the epoch of the source mailbox has been found to be
/// that of the identity.
pub open spec fn copy_epoch_confirmed(phase: CopyPhase) -> bool {
    phase != CopyPhase::Connecting && phase != CopyPhase::Selecting
}

/// A copy with the write gate closed is rejected as invalid input before any
/// command is named.
pub proof fn lemma_copy_needs_write_gate(
    step: Step<CopyState, CopyResult>,
    config: ServerConfig,
    input: CopyMessageInput,
)
    requires
        copy_begun(step, config, input),
        !config.write_enabled,
    ensures
        step matches Step::Finish(r) && r is Err && r->Err_0 is InvalidInput,
{
}

/// A copy sends a command that changes a mailbox only once the epoch of the
/// source mailbox has been found to be that of the identity, and an epoch
/// that differs ends it with a `Conflict`.
pub proof fn lemma_copy_checks_epoch(
    step: Step<CopyState, CopyResult>,
    config: ServerConfig,
    state: CopyState,
    reply: Reply,
)
    requires
        copy_resumed(step, config, state, reply),
    ensures
        step matches Step::Send(s, c) ==> (mutating(c) ==> copy_epoch_confirmed(s.phase)),
        step matches Step::Send(s, c) ==> (copy_epoch_confirmed(s.phase) ==> copy_epoch_confirmed(
            state.phase,
        ) || reply == Reply::Epoch(Ok(state.msg_id.uidvalidity))),
        state.phase == CopyPhase::Selecting && (reply matches Reply::Epoch(Ok(epoch)) && epoch
            != state.msg_id.uidvalidity) ==> (step matches Step::Finish(r) && r is Err
            && r->Err_0 is Conflict),
{
}

/// The report of a copy has the status that its ledger gives, and counts no
/// more successes than attempts, of four steps at most.
pub proof fn lemma_copy_ledger(
    step: Step<CopyState, CopyResult>,
    config: ServerConfig,
    state: CopyState,
    reply: Reply,
)
    requires
        copy_resumed(step, config, state, reply),
    ensures
        step matches Step::Finish(Ok(r)) ==> r.status == ledger_status(
            issue_views(r.issues@),
            r.steps_succeeded,
        ) && r.steps_succeeded <= r.steps_attempted && r.steps_attempted <= 4,
{
}

} // verus!
