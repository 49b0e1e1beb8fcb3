//! Updating the flags of a message: one store for the flags to add, one for
//! the flags to remove, each tracked on its own, then a fetch of the flags
//! for display.

use crate::config::{has_account, unknown_account_message, ServerConfig};
use crate::engine::{
    ensure_uidvalidity_matches, is_connect, is_select_readwrite, is_store, issue_views, mutating,
    record, single, stale_identity, stray, stray_reply, Command, Reply, Step,
};
use crate::errors::{AppError, AppResult};
use crate::message_id::{decode_spec, encode_spec, Decoded, MessageId};
use crate::models::UpdateMessageFlagsInput;
use crate::query::{join_spaced, spaced};
use crate::report::{issue_about, issue_of, status_of, Status, ToolIssue, ToolIssueView};
use crate::session::{fails, ErrorKind};
use crate::text::concat3;
use crate::validate::{
    account_id_fault, flags_fault, identity_fault, no_flags_message, parse_and_validate_message_id,
    require_write_enabled, validate_account_id, validate_flags, write_gate_fault,
};
use vstd::prelude::*;

verus! {

/// What a flag update reports.
#[derive(Debug)]
pub struct FlagsResult {
    pub status: Status,
    pub issues: Vec<ToolIssue>,
    pub account_id: String,
    pub message_id: String,
    /// The flags of the message after the update, if they could be fetched.
    pub flags: Option<Vec<String>>,
    pub requested_add_flags: Vec<String>,
    pub requested_remove_flags: Vec<String>,
    pub applied_add_flags: bool,
    pub applied_remove_flags: bool,
}

/// What a flag update waits for.
#[derive(Debug, Clone, Copy, PartialEq, Eq, Structural)]
pub enum FlagsPhase {
    /// The session is being opened.
    Connecting,
    /// The mailbox is being selected for writing.
    Selecting,
    /// The flags to add are being stored.
    Adding,
    /// The flags to remove are being stored.
    Removing,
    /// The flags are being fetched for display.
    Refetching,
}

/// A flag update under way.
#[derive(Debug)]
pub struct FlagsState {
    pub phase: FlagsPhase,
    pub account_id: String,
    pub msg_id: MessageId,
    /// The identity in its text form.
    pub encoded: String,
    pub add_flags: Vec<String>,
    pub remove_flags: Vec<String>,
    pub applied_add: bool,
    pub applied_remove: bool,
    /// The issues of the stores so far.
    pub issues: Vec<ToolIssue>,
}

/// The flags that a request names, none if it names no list.
pub open spec fn requested(flags: Option<Vec<String>>) -> Seq<String> {
    match flags {
        Some(v) => v@,
        None => Seq::empty(),
    }
}

/// The texts of a list of strings.
pub open spec fn texts(v: Seq<String>) -> Seq<Seq<char>> {
    Seq::new(v.len(), |i: int| v[i]@)
}

/// The store that adds (`+`) or removes (`-`) the flags `flags`.
pub open spec fn store_query(sign: Seq<char>, flags: Seq<String>) -> Seq<char> {
    sign + "FLAGS.SILENT ("@ + spaced(texts(flags)) + ")"@
}

/// Why a flag update cannot begin, if it cannot: the write gate is closed,
/// the account identifier is malformed, there is no flag to add or remove,
/// a flag is malformed, the identity is malformed or of another account, or
/// the account is unknown.
pub open spec fn flags_begin_fault(config: ServerConfig, input: UpdateMessageFlagsInput) -> Option<
    (ErrorKind, Seq<char>),
> {
    let add = requested(input.add_flags);
    let remove = requested(input.remove_flags);
    if write_gate_fault(config.write_enabled) is Some {
        Some((ErrorKind::InvalidInput, write_gate_fault(config.write_enabled)->Some_0))
    } else if account_id_fault(input.account_id@) is Some {
        Some((ErrorKind::InvalidInput, account_id_fault(input.account_id@)->Some_0))
    } else if add.len() == 0 && remove.len() == 0 {
        Some((ErrorKind::InvalidInput, no_flags_message()))
    } else if flags_fault(add, "add_flags"@) is Some {
        Some((ErrorKind::InvalidInput, flags_fault(add, "add_flags"@)->Some_0))
    } else if flags_fault(remove, "remove_flags"@) is Some {
        Some((ErrorKind::InvalidInput, flags_fault(remove, "remove_flags"@)->Some_0))
    } else if identity_fault(input.account_id@, input.message_id@) is Some {
        Some((ErrorKind::InvalidInput, identity_fault(input.account_id@, input.message_id@)->Some_0))
    } else if !has_account(config.accounts@, input.account_id@) {
        Some((ErrorKind::NotFound, unknown_account_message(input.account_id@)))
    } else {
        None
    }
}

/// The first step of a flag update.
pub open spec fn flags_begun(
    step: Step<FlagsState, FlagsResult>,
    config: ServerConfig,
    input: UpdateMessageFlagsInput,
) -> bool {
    match flags_begin_fault(config, input) {
        Some((kind, message)) => step matches Step::Finish(r) && fails(r, kind, message),
        None => {
            &&& step matches Step::Send(s, c)
            &&& is_connect(c, input.account_id@)
            &&& s.phase == FlagsPhase::Connecting
            &&& s.account_id@ == input.account_id@
            &&& decode_spec(input.message_id@) == Decoded::Identity(s.msg_id@)
            &&& s.encoded@ == encode_spec(s.msg_id@)
            &&& s.add_flags@ == requested(input.add_flags)
            &&& s.remove_flags@ == requested(input.remove_flags)
            &&& !s.applied_add
            &&& !s.applied_remove
            &&& s.issues@.len() == 0
        },
    }
}

/// The state `s` is `state` in the phase `phase`, with the outcome of the
/// stores brought up to date.
pub open spec fn flags_state(
    s: FlagsState,
    state: FlagsState,
    phase: FlagsPhase,
    applied_add: bool,
    applied_remove: bool,
    issues: Seq<ToolIssueView>,
) -> bool {
    &&& s.phase == phase
    &&& s.account_id == state.account_id
    &&& s.msg_id == state.msg_id
    &&& s.encoded == state.encoded
    &&& s.add_flags == state.add_flags
    &&& s.remove_flags == state.remove_flags
    &&& s.applied_add == applied_add
    &&& s.applied_remove == applied_remove
    &&& issue_views(s.issues@) == issues
}

/// The status of a flag update: that of its stores. `Okay` if no store
/// failed, else `Partial` if one of them was applied, else `Failed`. Whether
/// the flags could be fetched afterwards does not change it.
pub open spec fn flags_status(store_issues: Seq<ToolIssueView>, applied_add: bool, applied_remove: bool) -> Status {
    status_of(store_issues.len() == 0, applied_add || applied_remove)
}

/// The result `r` is the report of a flag update that ended in the state
/// `state` with the status `status`, the issues `issues` and the flags
/// `flags`.
pub open spec fn flags_report(
    r: FlagsResult,
    state: FlagsState,
    status: Status,
    issues: Seq<ToolIssueView>,
    flags: Option<Vec<String>>,
) -> bool {
    &&& r.status == status
    &&& issue_views(r.issues@) == issues
    &&& r.account_id@ == state.account_id@
    &&& r.message_id@ == state.encoded@
    &&& r.flags == flags
    &&& r.requested_add_flags == state.add_flags
    &&& r.requested_remove_flags == state.remove_flags
    &&& r.applied_add_flags == state.applied_add
    &&& r.applied_remove_flags == state.applied_remove
}

/// The issues `issues` with the issue of the step `stage` behind them, if
/// the step failed.
pub open spec fn with_failure(
    issues: Seq<ToolIssueView>,
    stage: Seq<char>,
    outcome: AppResult<()>,
    state: FlagsState,
) -> Seq<ToolIssueView> {
    match outcome {
        Ok(_) => issues,
        Err(e) => issues.push(issue_of(stage, e, Some(state.msg_id.uid), Some(state.encoded@))),
    }
}

/// The step `step` follows the reply `reply` in the state `state`.
///
/// A session that cannot be opened ends the update as failed. A mailbox that
/// cannot be selected, or that is in another epoch than the identity, ends
/// it with an error and no report. A store that fails is noted and the
/// update goes on: one store may fail while the other succeeds.
pub open spec fn flags_resumed(
    step: Step<FlagsState, FlagsResult>,
    state: FlagsState,
    reply: Reply,
) -> bool {
    let so_far = issue_views(state.issues@);
    match state.phase {
        FlagsPhase::Connecting => match reply {
            Reply::Done(Ok(_)) => step matches Step::Send(s, c) && flags_state(
                s,
                state,
                FlagsPhase::Selecting,
                state.applied_add,
                state.applied_remove,
                so_far,
            ) && is_select_readwrite(c, state.msg_id.mailbox@),
            Reply::Done(Err(e)) => step matches Step::Finish(Ok(r)) && flags_report(
                r,
                state,
                Status::Failed,
                seq![issue_of("connect_authenticated"@, e, None, Some(state.encoded@))],
                None,
            ),
            _ => step matches Step::Finish(r) && stray(r),
        },
        FlagsPhase::Selecting => match reply {
            Reply::Epoch(Err(e)) => step == Step::<FlagsState, FlagsResult>::Finish(Err(e)),
            Reply::Epoch(Ok(epoch)) => if epoch != state.msg_id.uidvalidity {
                step matches Step::Finish(r) && fails(r, ErrorKind::Conflict, stale_identity())
            } else if state.add_flags@.len() > 0 {
                step matches Step::Send(s, c) && flags_state(
                    s,
                    state,
                    FlagsPhase::Adding,
                    state.applied_add,
                    state.applied_remove,
                    so_far,
                ) && is_store(c, state.msg_id.uid, store_query("+"@, state.add_flags@))
            } else {
                step matches Step::Send(s, c) && flags_state(
                    s,
                    state,
                    FlagsPhase::Removing,
                    state.applied_add,
                    state.applied_remove,
                    so_far,
                ) && is_store(c, state.msg_id.uid, store_query("-"@, state.remove_flags@))
            },
            _ => step matches Step::Finish(r) && stray(r),
        },
        FlagsPhase::Adding => match reply {
            Reply::Done(outcome) => if state.remove_flags@.len() > 0 {
                step matches Step::Send(s, c) && flags_state(
                    s,
                    state,
                    FlagsPhase::Removing,
                    outcome is Ok,
                    state.applied_remove,
                    with_failure(so_far, "uid_store_add_flags"@, outcome, state),
                ) && is_store(c, state.msg_id.uid, store_query("-"@, state.remove_flags@))
            } else {
                step matches Step::Send(s, c) && flags_state(
                    s,
                    state,
                    FlagsPhase::Refetching,
                    outcome is Ok,
                    state.applied_remove,
                    with_failure(so_far, "uid_store_add_flags"@, outcome, state),
                ) && c == (Command::FetchFlags { uid: state.msg_id.uid })
            },
            _ => step matches Step::Finish(r) && stray(r),
        },
        FlagsPhase::Removing => match reply {
            Reply::Done(outcome) => step matches Step::Send(s, c) && flags_state(
                s,
                state,
                FlagsPhase::Refetching,
                state.applied_add,
                outcome is Ok,
                with_failure(so_far, "uid_store_remove_flags"@, outcome, state),
            ) && c == (Command::FetchFlags { uid: state.msg_id.uid }),
            _ => step matches Step::Finish(r) && stray(r),
        },
        FlagsPhase::Refetching => match reply {
            Reply::Flags(Ok(flags)) => step matches Step::Finish(Ok(r)) && flags_report(
                r,
                state,
                flags_status(so_far, state.applied_add, state.applied_remove),
                so_far,
                Some(flags),
            ),
            Reply::Flags(Err(e)) => step matches Step::Finish(Ok(r)) && flags_report(
                r,
                state,
                flags_status(so_far, state.applied_add, state.applied_remove),
                so_far.push(
                    issue_of("fetch_flags"@, e, Some(state.msg_id.uid), Some(state.encoded@)),
                ),
                None,
            ),
            _ => step matches Step::Finish(r) && stray(r),
        },
    }
}

fn build_store_query(sign: &str, flags: &Vec<String>) -> (q: String)
    ensures
        q@ == store_query(sign@, flags@),
{
    let joined = join_spaced(flags);
    assert(flags.deep_view() =~= texts(flags@));
    let mut q = concat3(sign, "FLAGS.SILENT (", joined.as_str());
    q.append(")");
    q
}

fn note_failure(issues: &mut Vec<ToolIssue>, stage: &str, outcome: &AppResult<()>, uid: u32, encoded: &str)
    ensures
        issue_views(final(issues)@) == match *outcome {
            Ok(_) => issue_views(old(issues)@),
            Err(e) => issue_views(old(issues)@).push(issue_of(stage@, e, Some(uid), Some(encoded@))),
        },
{
    match outcome {
        Ok(_) => {},
        Err(e) => {
            record(issues, issue_about(stage, e, Some(uid), Some(encoded)));
        },
    }
}

/// Begins a flag update: checks the request and asks for a session.
pub fn flags_begin(config: &ServerConfig, input: UpdateMessageFlagsInput) -> (step: Step<
    FlagsState,
    FlagsResult,
>)
    ensures
        flags_begun(step, *config, input),
{
    match require_write_enabled(config) {
        Ok(()) => {},
        Err(e) => {
            return Step::Finish(Err(e));
        },
    }
    match validate_account_id(input.account_id.as_str()) {
        Ok(()) => {},
        Err(e) => {
            return Step::Finish(Err(e));
        },
    }
    let add_flags = match input.add_flags {
        Some(v) => v,
        None => Vec::new(),
    };
    let remove_flags = match input.remove_flags {
        Some(v) => v,
        None => Vec::new(),
    };
    if add_flags.len() == 0 && remove_flags.len() == 0 {
        return Step::Finish(
            Err(AppError::invalid("at least one of add_flags/remove_flags is required")),
        );
    }
    match validate_flags(&add_flags, "add_flags") {
        Ok(()) => {},
        Err(e) => {
            return Step::Finish(Err(e));
        },
    }
    match validate_flags(&remove_flags, "remove_flags") {
        Ok(()) => {},
        Err(e) => {
            return Step::Finish(Err(e));
        },
    }
    let msg_id = match parse_and_validate_message_id(
        input.account_id.as_str(),
        input.message_id.as_str(),
    ) {
        Ok(id) => id,
        Err(e) => {
            return Step::Finish(Err(e));
        },
    };
    match config.get_account(input.account_id.as_str()) {
        Ok(_) => {},
        Err(e) => {
            return Step::Finish(Err(e));
        },
    }
    let encoded = msg_id.encode();
    let command = Command::Connect { account_id: input.account_id.clone() };
    Step::Send(
        FlagsState {
            phase: FlagsPhase::Connecting,
            account_id: input.account_id,
            msg_id,
            encoded,
            add_flags,
            remove_flags,
            applied_add: false,
            applied_remove: false,
            issues: Vec::new(),
        },
        command,
    )
}

/// Takes a flag update one step further with the reply to its last command.
pub fn flags_resume(state: FlagsState, reply: Reply) -> (step: Step<FlagsState, FlagsResult>)
    ensures
        flags_resumed(step, state, reply),
{
    match state.phase {
        FlagsPhase::Connecting => match reply {
            Reply::Done(Ok(_)) => {
                let command = Command::SelectReadWrite { mailbox: state.msg_id.mailbox.clone() };
                Step::Send(FlagsState { phase: FlagsPhase::Selecting, ..state }, command)
            },
            Reply::Done(Err(e)) => {
                let issue = issue_about(
                    "connect_authenticated",
                    &e,
                    None,
                    Some(state.encoded.as_str()),
                );
                Step::Finish(
                    Ok(
                        FlagsResult {
                            status: Status::Failed,
                            issues: single(issue),
                            account_id: state.account_id,
                            message_id: state.encoded,
                            flags: None,
                            requested_add_flags: state.add_flags,
                            requested_remove_flags: state.remove_flags,
                            applied_add_flags: state.applied_add,
                            applied_remove_flags: state.applied_remove,
                        },
                    ),
                )
            },
            _ => Step::Finish(Err(stray_reply())),
        },
        FlagsPhase::Selecting => match reply {
            Reply::Epoch(selected) => match ensure_uidvalidity_matches(&state.msg_id, selected) {
                Err(e) => Step::Finish(Err(e)),
                Ok(()) => if state.add_flags.len() > 0 {
                    let command = Command::Store {
                        uid: state.msg_id.uid,
                        query: build_store_query("+", &state.add_flags),
                    };
                    Step::Send(FlagsState { phase: FlagsPhase::Adding, ..state }, command)
                } else {
                    let command = Command::Store {
                        uid: state.msg_id.uid,
                        query: build_store_query("-", &state.remove_flags),
                    };
                    Step::Send(FlagsState { phase: FlagsPhase::Removing, ..state }, command)
                },
            },
            _ => Step::Finish(Err(stray_reply())),
        },
        FlagsPhase::Adding => match reply {
            Reply::Done(outcome) => {
                let mut state = state;
                note_failure(
                    &mut state.issues,
                    "uid_store_add_flags",
                    &outcome,
                    state.msg_id.uid,
                    state.encoded.as_str(),
                );
                state.applied_add = outcome.is_ok();
                if state.remove_flags.len() > 0 {
                    let command = Command::Store {
                        uid: state.msg_id.uid,
                        query: build_store_query("-", &state.remove_flags),
                    };
                    state.phase = FlagsPhase::Removing;
                    Step::Send(state, command)
                } else {
                    let command = Command::FetchFlags { uid: state.msg_id.uid };
                    state.phase = FlagsPhase::Refetching;
                    Step::Send(state, command)
                }
            },
            _ => Step::Finish(Err(stray_reply())),
        },
        FlagsPhase::Removing => match reply {
            Reply::Done(outcome) => {
                let mut state = state;
                note_failure(
                    &mut state.issues,
                    "uid_store_remove_flags",
                    &outcome,
                    state.msg_id.uid,
                    state.encoded.as_str(),
                );
                state.applied_remove = outcome.is_ok();
                let command = Command::FetchFlags { uid: state.msg_id.uid };
                state.phase = FlagsPhase::Refetching;
                Step::Send(state, command)
            },
            _ => Step::Finish(Err(stray_reply())),
        },
        FlagsPhase::Refetching => match reply {
            Reply::Flags(fetched) => {
                let status = crate::report::status_from_counts(
                    state.issues.len() == 0,
                    state.applied_add || state.applied_remove,
                );
                let mut issues = state.issues;
                let flags = match fetched {
                    Ok(f) => Some(f),
                    Err(e) => {
                        record(
                            &mut issues,
                            issue_about(
                                "fetch_flags",
                                &e,
                                Some(state.msg_id.uid),
                                Some(state.encoded.as_str()),
                            ),
                        );
                        None
                    },
                };
                Step::Finish(
                    Ok(
                        FlagsResult {
                            status,
                            issues,
                            account_id: state.account_id,
                            message_id: state.encoded,
                            flags,
                            requested_add_flags: state.add_flags,
                            requested_remove_flags: state.remove_flags,
                            applied_add_flags: state.applied_add,
                            applied_remove_flags: state.applied_remove,
                        },
                    ),
                )
            },
            _ => Step::Finish(Err(stray_reply())),
        },
    }
}

/// In these phases the epoch of the mailbox has been found to be that of
/// the identity.
pub open spec fn flags_epoch_confirmed(phase: FlagsPhase) -> bool {
    phase != FlagsPhase::Connecting && phase != FlagsPhase::Selecting
}

/// A flag update with the write gate closed is rejected as invalid input
/// before any command is named.
pub proof fn lemma_flags_need_write_gate(
    step: Step<FlagsState, FlagsResult>,
    config: ServerConfig,
    input: UpdateMessageFlagsInput,
)
    requires
        flags_begun(step, config, input),
        !config.write_enabled,
    ensures
        step matches Step::Finish(r) && r is Err && r->Err_0 is InvalidInput,
{
}

/// A flag update with neither a flag to add nor a flag to remove is rejected
/// as invalid input before any command is named.
pub proof fn lemma_flags_need_a_flag(
    step: Step<FlagsState, FlagsResult>,
    config: ServerConfig,
    input: UpdateMessageFlagsInput,
)
    requires
        flags_begun(step, config, input),
        requested(input.add_flags).len() == 0,
        requested(input.remove_flags).len() == 0,
    ensures
        step matches Step::Finish(r) && r is Err && r->Err_0 is InvalidInput,
{
}

/// A flag update that names a flag which is not well formed is rejected as
/// invalid input before any command is named.
pub proof fn lemma_flags_must_be_well_formed(
    step: Step<FlagsState, FlagsResult>,
    config: ServerConfig,
    input: UpdateMessageFlagsInput,
)
    requires
        flags_begun(step, config, input),
        flags_fault(requested(input.add_flags), "add_flags"@) is Some || flags_fault(
            requested(input.remove_flags),
            "remove_flags"@,
        ) is Some,
    ensures
        step matches Step::Finish(r) && r is Err && r->Err_0 is InvalidInput,
{
}

/// A flag update sends a command that changes a mailbox only once the epoch
/// of the mailbox has been found to be that of the identity, and an epoch
/// that differs ends it with a `Conflict`.
pub proof fn lemma_flags_check_epoch(
    step: Step<FlagsState, FlagsResult>,
    state: FlagsState,
    reply: Reply,
)
    requires
        flags_resumed(step, state, reply),
    ensures
        step matches Step::Send(s, c) ==> (mutating(c) ==> flags_epoch_confirmed(s.phase)),
        step matches Step::Send(s, c) ==> (flags_epoch_confirmed(s.phase) ==> flags_epoch_confirmed(
            state.phase,
        ) || reply == Reply::Epoch(Ok(state.msg_id.uidvalidity))),
        state.phase == FlagsPhase::Selecting && (reply matches Reply::Epoch(Ok(epoch)) && epoch
            != state.msg_id.uidvalidity) ==> (step matches Step::Finish(r) && r is Err
            && r->Err_0 is Conflict),
{
}

} // verus!
