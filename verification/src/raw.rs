//! Fetching the source of a message, bounded in size and handed out in
//! base64.

use crate::config::{has_account, unknown_account_message, ServerConfig};
use crate::engine::{
    ensure_uidvalidity_matches, is_connect, is_select_readonly, issue_views, single, stale_identity,
    stray, stray_reply, Command, Reply, Step,
};
use crate::errors::AppError;
use crate::message_id::{decode_spec, encode_spec, Decoded, MessageId};
use crate::models::GetMessageRawInput;
use crate::report::{issue_about, issue_of, Status, ToolIssue, ToolIssueView};
use crate::session::{fails, ErrorKind};
use crate::uri::{
    base64_text, build_message_raw_uri, build_message_uri, encode_raw_source_base64,
    message_raw_uri, message_uri,
};
use crate::validate::{
    account_id_fault, identity_fault, parse_and_validate_message_id, range_fault,
    validate_account_id, validate_chars,
};
use vstd::prelude::*;

verus! {

/// The smallest and the largest bound that a request may put on the size of
/// a message source, in bytes.
pub const MIN_RAW_BYTES: usize = 1_024;

pub const MAX_RAW_BYTES: usize = 1_000_000;

/// What a source fetch reports.
#[derive(Debug)]
pub struct RawResult {
    pub status: Status,
    pub issues: Vec<ToolIssue>,
    pub account_id: String,
    pub message_id: String,
    pub message_uri: String,
    pub message_raw_uri: String,
    pub size_bytes: usize,
    /// The source in base64, if it could be fetched.
    pub raw_source_base64: Option<String>,
    /// `base64`, if the source could be fetched.
    pub raw_source_encoding: Option<String>,
}

/// What a source fetch waits for.
#[derive(Debug, Clone, Copy, PartialEq, Eq, Structural)]
pub enum RawPhase {
    /// The session is being opened.
    Connecting,
    /// The mailbox is being selected for reading.
    Selecting,
    /// The source of the message is being fetched.
    Fetching,
}

/// A source fetch under way.
#[derive(Debug)]
pub struct RawState {
    pub phase: RawPhase,
    pub account_id: String,
    pub msg_id: MessageId,
    /// The identity in its text form.
    pub encoded: String,
    pub max_bytes: usize,
}

/// Why a source fetch cannot begin, if it cannot: the account identifier is
/// malformed, the bound on the size is out of range, the identity is
/// malformed or of another account, or the account is unknown.
pub open spec fn raw_fault(config: ServerConfig, input: GetMessageRawInput) -> Option<
    (ErrorKind, Seq<char>),
> {
    if account_id_fault(input.account_id@) is Some {
        Some((ErrorKind::InvalidInput, account_id_fault(input.account_id@)->Some_0))
    } else if range_fault(input.max_bytes, MIN_RAW_BYTES, MAX_RAW_BYTES, "max_bytes"@) is Some {
        Some(
            (
                ErrorKind::InvalidInput,
                range_fault(input.max_bytes, MIN_RAW_BYTES, MAX_RAW_BYTES, "max_bytes"@)->Some_0,
            ),
        )
    } else if identity_fault(input.account_id@, input.message_id@) is Some {
        Some((ErrorKind::InvalidInput, identity_fault(input.account_id@, input.message_id@)->Some_0))
    } else if !has_account(config.accounts@, input.account_id@) {
        Some((ErrorKind::NotFound, unknown_account_message(input.account_id@)))
    } else {
        None
    }
}

/// The first step of a source fetch.
pub open spec fn raw_begun(
    step: Step<RawState, RawResult>,
    config: ServerConfig,
    input: GetMessageRawInput,
) -> bool {
    match raw_fault(config, input) {
        Some((kind, message)) => step matches Step::Finish(r) && fails(r, kind, message),
        None => {
            &&& step matches Step::Send(s, c)
            &&& is_connect(c, input.account_id@)
            &&& s.phase == RawPhase::Connecting
            &&& s.account_id@ == input.account_id@
            &&& decode_spec(input.message_id@) == Decoded::Identity(s.msg_id@)
            &&& s.encoded@ == encode_spec(s.msg_id@)
            &&& s.max_bytes == input.max_bytes
        },
    }
}

/// What every report of a source fetch says of the message.
pub open spec fn raw_names(r: RawResult, state: RawState) -> bool {
    &&& r.account_id@ == state.account_id@
    &&& r.message_id@ == state.encoded@
    &&& r.message_uri@ == message_uri(
        state.msg_id.account_id@,
        state.msg_id.mailbox@,
        state.msg_id.uidvalidity,
        state.msg_id.uid,
    )
    &&& r.message_raw_uri@ == message_raw_uri(
        state.msg_id.account_id@,
        state.msg_id.mailbox@,
        state.msg_id.uidvalidity,
        state.msg_id.uid,
    )
}

/// The result `r` reports a source fetch that failed with the issue `issue`.
pub open spec fn raw_failed(r: RawResult, state: RawState, issue: ToolIssueView) -> bool {
    &&& raw_names(r, state)
    &&& r.status == Status::Failed
    &&& issue_views(r.issues@) == seq![issue]
    &&& r.size_bytes == 0
    &&& r.raw_source_base64 is None
    &&& r.raw_source_encoding is None
}

/// The source `raw` is larger than the request allows.
pub open spec fn too_large(raw: Seq<u8>, max_bytes: usize) -> bool {
    raw.len() > max_bytes || raw.len() > MAX_RAW_BYTES
}

/// The step `step` follows the reply `reply` in the state `state`.
///
/// A session that cannot be opened and a source that cannot be fetched end
/// the fetch as failed. A mailbox that cannot be selected, or that is in
/// another epoch than the identity, ends it with an error and no report, and
/// so does a source that is larger than the request allows.
pub open spec fn raw_resumed(step: Step<RawState, RawResult>, state: RawState, reply: Reply) -> bool {
    match state.phase {
        RawPhase::Connecting => match reply {
            Reply::Done(Ok(_)) => step matches Step::Send(s, c) && s == (RawState {
                phase: RawPhase::Selecting,
                ..state
            }) && is_select_readonly(c, state.msg_id.mailbox@),
            Reply::Done(Err(e)) => step matches Step::Finish(Ok(r)) && raw_failed(
                r,
                state,
                issue_of("connect_authenticated"@, e, None, Some(state.encoded@)),
            ),
            _ => step matches Step::Finish(r) && stray(r),
        },
        RawPhase::Selecting => match reply {
            Reply::Epoch(Err(e)) => step == Step::<RawState, RawResult>::Finish(Err(e)),
            Reply::Epoch(Ok(epoch)) => if epoch == state.msg_id.uidvalidity {
                step matches Step::Send(s, c) && s == (RawState {
                    phase: RawPhase::Fetching,
                    ..state
                }) && c == (Command::FetchRaw { uid: state.msg_id.uid })
            } else {
                step matches Step::Finish(r) && fails(r, ErrorKind::Conflict, stale_identity())
            },
            _ => step matches Step::Finish(r) && stray(r),
        },
        RawPhase::Fetching => match reply {
            Reply::Raw(Err(e)) => step matches Step::Finish(Ok(r)) && raw_failed(
                r,
                state,
                issue_of("fetch_raw_message"@, e, Some(state.msg_id.uid), Some(state.encoded@)),
            ),
            Reply::Raw(Ok(raw)) => if too_large(raw@, state.max_bytes) {
                step matches Step::Finish(r) && fails(
                    r,
                    ErrorKind::InvalidInput,
                    "message exceeds max_bytes; increase max_bytes"@,
                )
            } else {
                &&& step matches Step::Finish(Ok(r))
                &&& raw_names(r, state)
                &&& r.status == Status::Okay
                &&& r.issues@.len() == 0
                &&& r.size_bytes == raw@.len()
                &&& r.raw_source_base64 is Some
                &&& r.raw_source_base64->Some_0@ == base64_text(raw@)
                &&& r.raw_source_encoding is Some
                &&& r.raw_source_encoding->Some_0@ == "base64"@
            },
            _ => step matches Step::Finish(r) && stray(r),
        },
    }
}

fn raw_report(
    state: RawState,
    status: Status,
    issues: Vec<ToolIssue>,
    size_bytes: usize,
    raw_source_base64: Option<String>,
    raw_source_encoding: Option<String>,
) -> (r: RawResult)
    ensures
        raw_names(r, state),
        r.status == status,
        r.issues == issues,
        r.size_bytes == size_bytes,
        r.raw_source_base64 == raw_source_base64,
        r.raw_source_encoding == raw_source_encoding,
{
    let message_uri = build_message_uri(
        state.msg_id.account_id.as_str(),
        state.msg_id.mailbox.as_str(),
        state.msg_id.uidvalidity,
        state.msg_id.uid,
    );
    let message_raw_uri = build_message_raw_uri(
        state.msg_id.account_id.as_str(),
        state.msg_id.mailbox.as_str(),
        state.msg_id.uidvalidity,
        state.msg_id.uid,
    );
    RawResult {
        status,
        issues,
        account_id: state.account_id,
        message_id: state.encoded,
        message_uri,
        message_raw_uri,
        size_bytes,
        raw_source_base64,
        raw_source_encoding,
    }
}

fn raw_fail(state: RawState, stage: &str, e: AppError, with_uid: bool) -> (step: Step<
    RawState,
    RawResult,
>)
    ensures
        step matches Step::Finish(Ok(r)) && raw_failed(
            r,
            state,
            issue_of(
                stage@,
                e,
                if with_uid {
                    Some(state.msg_id.uid)
                } else {
                    None
                },
                Some(state.encoded@),
            ),
        ),
{
    let uid = if with_uid {
        Some(state.msg_id.uid)
    } else {
        None
    };
    let issue = issue_about(stage, &e, uid, Some(state.encoded.as_str()));
    Step::Finish(Ok(raw_report(state, Status::Failed, single(issue), 0, None, None)))
}

/// Begins a source fetch: checks the request and asks for a session.
pub fn raw_begin(config: &ServerConfig, input: GetMessageRawInput) -> (step: Step<
    RawState,
    RawResult,
>)
    ensures
        raw_begun(step, *config, input),
{
    match validate_account_id(input.account_id.as_str()) {
        Ok(()) => {},
        Err(e) => {
            return Step::Finish(Err(e));
        },
    }
    match validate_chars(input.max_bytes, MIN_RAW_BYTES, MAX_RAW_BYTES, "max_bytes") {
        Ok(()) => {},
        Err(e) => {
            return Step::Finish(Err(e));
        },
    }
    let msg_id = match parse_and_validate_message_id(
        input.account_id.as_str(),
        input.message_id.as_str(),
    ) {
        Ok(id) => id,
        Err(e) => {
            return Step::Finish(Err(e));
        },
    };
    match config.get_account(input.account_id.as_str()) {
        Ok(_) => {},
        Err(e) => {
            return Step::Finish(Err(e));
        },
    }
    let encoded = msg_id.encode();
    let command = Command::Connect { account_id: input.account_id.clone() };
    Step::Send(
        RawState {
            phase: RawPhase::Connecting,
            account_id: input.account_id,
            msg_id,
            encoded,
            max_bytes: input.max_bytes,
        },
        command,
    )
}

/// Takes a source fetch one step further with the reply to its last command.
pub fn raw_resume(state: RawState, reply: Reply) -> (step: Step<RawState, RawResult>)
    ensures
        raw_resumed(step, state, reply),
{
    match state.phase {
        RawPhase::Connecting => match reply {
            Reply::Done(Ok(_)) => {
                let command = Command::SelectReadOnly { mailbox: state.msg_id.mailbox.clone() };
                Step::Send(RawState { phase: RawPhase::Selecting, ..state }, command)
            },
            Reply::Done(Err(e)) => raw_fail(state, "connect_authenticated", e, false),
            _ => Step::Finish(Err(stray_reply())),
        },
        RawPhase::Selecting => match reply {
            Reply::Epoch(selected) => match ensure_uidvalidity_matches(&state.msg_id, selected) {
                Err(e) => Step::Finish(Err(e)),
                Ok(()) => {
                    let command = Command::FetchRaw { uid: state.msg_id.uid };
                    Step::Send(RawState { phase: RawPhase::Fetching, ..state }, command)
                },
            },
            _ => Step::Finish(Err(stray_reply())),
        },
        RawPhase::Fetching => match reply {
            Reply::Raw(Err(e)) => raw_fail(state, "fetch_raw_message", e, true),
            Reply::Raw(Ok(raw)) => {
                if raw.len() > state.max_bytes || raw.len() > MAX_RAW_BYTES {
                    return Step::Finish(
                        Err(AppError::invalid("message exceeds max_bytes; increase max_bytes")),
                    );
                }
                let encoded = encode_raw_source_base64(raw.as_slice());
                Step::Finish(
                    Ok(
                        raw_report(
                            state,
                            Status::Okay,
                            Vec::new(),
                            raw.len(),
                            Some(encoded),
                            Some("base64".to_owned()),
                        ),
                    ),
                )
            },
            _ => Step::Finish(Err(stray_reply())),
        },
    }
}

} // verus!
