//! Fetching a message in full: its source is fetched and read, the text of
//! its PDF attachments is extracted on request, and its flags are fetched
//! for display.

use crate::config::{has_account, unknown_account_message, ServerConfig};
use crate::engine::{
    ensure_uidvalidity_matches, is_connect, is_extract, is_select_readonly, issue_views, single,
    stale_identity, stray, stray_reply, Command, Reply, Step,
};
use crate::errors::{AppError, AppResult};
use crate::message_id::{decode_spec, encode_spec, Decoded, MessageId};
use crate::mime::{
    attachment_views, curated, curated_headers, header_views, message_parsed, note_extracted_text,
    parse_message, source_views, truncated, AttachmentView, ParsedMessage,
};
use crate::models::{GetMessageInput, MessageDetail};
use crate::report::{issue_about, issue_of, Status, ToolIssue, ToolIssueView};
use crate::session::{fails, ErrorKind};
use crate::uri::{build_message_raw_uri, build_message_uri, message_raw_uri, message_uri};
use crate::validate::{
    account_id_fault, identity_fault, parse_and_validate_message_id, range_fault,
    validate_account_id, validate_chars,
};
use vstd::prelude::*;

verus! {

/// The largest number of attachments that a message is shown with.
pub const MAX_ATTACHMENTS: usize = 50;

/// What a message fetch reports.
#[derive(Debug)]
pub struct MessageResult {
    pub status: Status,
    pub issues: Vec<ToolIssue>,
    pub account_id: String,
    /// The message, if it could be fetched and read.
    pub message: Option<MessageDetail>,
}

/// What of a message is asked for.
#[derive(Debug, Clone, Copy)]
pub struct DetailOptions {
    pub body_max_chars: usize,
    pub include_headers: bool,
    pub include_all_headers: bool,
    pub include_html: bool,
    pub extract_attachment_text: bool,
    pub attachment_text_max_chars: usize,
}

/// What a message fetch waits for.
#[derive(Debug)]
pub enum DetailPhase {
    /// The session is being opened.
    Connecting,
    /// The mailbox is being selected for reading.
    Selecting,
    /// The source of the message is being fetched.
    FetchingRaw,
    /// The text of the last of the PDF sources of the message is being
    /// extracted.
    Extracting { parsed: ParsedMessage },
    /// The flags of the message are being fetched.
    FetchingFlags { parsed: ParsedMessage },
}

/// A message fetch under way.
#[derive(Debug)]
pub struct DetailState {
    pub phase: DetailPhase,
    pub account_id: String,
    pub msg_id: MessageId,
    /// The identity in its text form.
    pub encoded: String,
    pub options: DetailOptions,
}

/// The longest attachment text when the request names no length.
pub open spec fn wanted_text_chars(input: GetMessageInput) -> usize {
    match input.attachment_text_max_chars {
        Some(n) => n,
        None => 10_000,
    }
}

/// Why a message fetch cannot begin, if it cannot: the account identifier
/// is malformed, a length is out of range or asked for without need, the
/// identity is malformed or of another account, or the account is unknown.
pub open spec fn detail_fault(config: ServerConfig, input: GetMessageInput) -> Option<
    (ErrorKind, Seq<char>),
> {
    if account_id_fault(input.account_id@) is Some {
        Some((ErrorKind::InvalidInput, account_id_fault(input.account_id@)->Some_0))
    } else if range_fault(input.body_max_chars, 100, 20_000, "body_max_chars"@) is Some {
        Some(
            (
                ErrorKind::InvalidInput,
                range_fault(input.body_max_chars, 100, 20_000, "body_max_chars"@)->Some_0,
            ),
        )
    } else if input.attachment_text_max_chars is Some && !input.extract_attachment_text {
        Some(
            (
                ErrorKind::InvalidInput,
                "attachment_text_max_chars requires extract_attachment_text=true"@,
            ),
        )
    } else if range_fault(wanted_text_chars(input), 100, 50_000, "attachment_text_max_chars"@) is Some {
        Some(
            (
                ErrorKind::InvalidInput,
                range_fault(
                    wanted_text_chars(input),
                    100,
                    50_000,
                    "attachment_text_max_chars"@,
                )->Some_0,
            ),
        )
    } else if identity_fault(input.account_id@, input.message_id@) is Some {
        Some((ErrorKind::InvalidInput, identity_fault(input.account_id@, input.message_id@)->Some_0))
    } else if !has_account(config.accounts@, input.account_id@) {
        Some((ErrorKind::NotFound, unknown_account_message(input.account_id@)))
    } else {
        None
    }
}

/// The first step of a message fetch.
pub open spec fn detail_begun(
    step: Step<DetailState, MessageResult>,
    config: ServerConfig,
    input: GetMessageInput,
) -> bool {
    match detail_fault(config, input) {
        Some((kind, message)) => step matches Step::Finish(r) && fails(r, kind, message),
        None => {
            &&& step matches Step::Send(s, c)
            &&& is_connect(c, input.account_id@)
            &&& s.phase is Connecting
            &&& s.account_id@ == input.account_id@
            &&& decode_spec(input.message_id@) == Decoded::Identity(s.msg_id@)
            &&& s.encoded@ == encode_spec(s.msg_id@)
            &&& s.options.body_max_chars == input.body_max_chars
            &&& s.options.include_headers == input.include_headers
            &&& s.options.include_all_headers == input.include_all_headers
            &&& s.options.include_html == input.include_html
            &&& s.options.extract_attachment_text == input.extract_attachment_text
            &&& s.options.attachment_text_max_chars == wanted_text_chars(input)
        },
    }
}

/// The state `s` is `state` in another phase.
pub open spec fn detail_state(s: DetailState, state: DetailState) -> bool {
    &&& s.account_id == state.account_id
    &&& s.msg_id == state.msg_id
    &&& s.encoded == state.encoded
    &&& s.options == state.options
}

/// The message `later` is `p` with the attachments `attachments` and the PDF
/// sources `sources`.
pub open spec fn message_with(
    later: ParsedMessage,
    p: ParsedMessage,
    attachments: Seq<AttachmentView>,
    sources: Seq<(usize, Seq<u8>)>,
) -> bool {
    &&& later.date == p.date
    &&& later.from == p.from
    &&& later.to == p.to
    &&& later.cc == p.cc
    &&& later.subject == p.subject
    &&& later.headers_all == p.headers_all
    &&& later.body_text == p.body_text
    &&& later.body_html_sanitized == p.body_html_sanitized
    &&& attachment_views(later.attachments@) == attachments
    &&& source_views(later.pdf_sources@) == sources
}

/// The result `r` reports a fetch that failed with the issue `issue`.
pub open spec fn detail_failed(r: MessageResult, state: DetailState, issue: ToolIssueView) -> bool {
    &&& r.status == Status::Failed
    &&& issue_views(r.issues@) == seq![issue]
    &&& r.account_id@ == state.account_id@
    &&& r.message is None
}

/// The attachments that are shown: the first `MAX_ATTACHMENTS`.
pub open spec fn shown(attachments: Seq<AttachmentView>) -> Seq<AttachmentView> {
    if attachments.len() <= MAX_ATTACHMENTS {
        attachments
    } else {
        attachments.take(MAX_ATTACHMENTS as int)
    }
}

/// The detail `d` shows the message `p` of the state `state` with the flags
/// `flags`.
pub open spec fn detail_shows(
    d: MessageDetail,
    state: DetailState,
    p: ParsedMessage,
    flags: Option<Vec<String>>,
) -> bool {
    &&& d.message_id@ == state.encoded@
    &&& d.message_uri@ == message_uri(
        state.account_id@,
        state.msg_id.mailbox@,
        state.msg_id.uidvalidity,
        state.msg_id.uid,
    )
    &&& d.message_raw_uri@ == message_raw_uri(
        state.account_id@,
        state.msg_id.mailbox@,
        state.msg_id.uidvalidity,
        state.msg_id.uid,
    )
    &&& d.mailbox@ == state.msg_id.mailbox@
    &&& d.uidvalidity == state.msg_id.uidvalidity
    &&& d.uid == state.msg_id.uid
    &&& d.date == p.date
    &&& d.from == p.from
    &&& d.to == p.to
    &&& d.cc == p.cc
    &&& d.subject == p.subject
    &&& d.flags == flags
    &&& if state.options.include_headers || state.options.include_all_headers {
        d.headers is Some && header_views(d.headers->Some_0@) == if state.options.include_all_headers {
            header_views(p.headers_all@)
        } else {
            curated(header_views(p.headers_all@))
        }
    } else {
        d.headers is None
    }
    &&& d.body_text == p.body_text
    &&& d.body_html == p.body_html_sanitized
    &&& d.attachments is Some
    &&& attachment_views(d.attachments->Some_0@) == shown(attachment_views(p.attachments@))
}

/// The attachments of `p` once the text `text` has been noted for the last
/// of its sources.
pub open spec fn after_extraction(p: ParsedMessage, text: Option<String>, max_chars: usize) -> Seq<
    AttachmentView,
> {
    let views = attachment_views(p.attachments@);
    if p.pdf_sources@.len() == 0 {
        views
    } else {
        let index = p.pdf_sources@.last().attachment;
        if index < views.len() && text is Some {
            views.update(
                index as int,
                AttachmentView {
                    extracted_text: Some(truncated(text->Some_0@, max_chars)),
                    ..views[index as int]
                },
            )
        } else {
            views
        }
    }
}

/// The sources without the last one, whose text has been dealt with.
pub open spec fn without_last(sources: Seq<(usize, Seq<u8>)>) -> Seq<(usize, Seq<u8>)> {
    if sources.len() > 0 {
        sources.drop_last()
    } else {
        sources
    }
}

/// The fetch goes on with the message `p`: with the extraction of the text
/// of its last source, if it has one, else with the fetch of the flags.
pub open spec fn detail_goes_on(
    step: Step<DetailState, MessageResult>,
    state: DetailState,
    attachments: Seq<AttachmentView>,
    sources: Seq<(usize, Seq<u8>)>,
    p: ParsedMessage,
) -> bool {
    &&& step matches Step::Send(s, c)
    &&& detail_state(s, state)
    &&& if sources.len() > 0 {
        s.phase matches DetailPhase::Extracting { parsed } && message_with(
            parsed,
            p,
            attachments,
            sources,
        ) && is_extract(c, sources.last().1)
    } else {
        s.phase matches DetailPhase::FetchingFlags { parsed } && message_with(
            parsed,
            p,
            attachments,
            sources,
        ) && c == (Command::FetchFlags { uid: state.msg_id.uid })
    }
}

/// The step `step` follows the reply `reply` in the state `state`.
///
/// A session that cannot be opened, a source that cannot be fetched and a
/// message that cannot be read end the fetch as failed. A mailbox that
/// cannot be selected, or that is in another epoch than the identity, ends
/// it with an error and no report. Flags that cannot be fetched are noted,
/// and the message is shown without them.
pub open spec fn detail_resumed(
    step: Step<DetailState, MessageResult>,
    state: DetailState,
    reply: Reply,
) -> bool {
    match state.phase {
        DetailPhase::Connecting => match reply {
            Reply::Done(Ok(_)) => step matches Step::Send(s, c) && detail_state(s, state)
                && s.phase is Selecting && is_select_readonly(c, state.msg_id.mailbox@),
            Reply::Done(Err(e)) => step matches Step::Finish(Ok(r)) && detail_failed(
                r,
                state,
                issue_of("connect_authenticated"@, e, None, Some(state.encoded@)),
            ),
            _ => step matches Step::Finish(r) && stray(r),
        },
        DetailPhase::Selecting => match reply {
            Reply::Epoch(Err(e)) => step == Step::<DetailState, MessageResult>::Finish(Err(e)),
            Reply::Epoch(Ok(epoch)) => if epoch == state.msg_id.uidvalidity {
                step matches Step::Send(s, c) && detail_state(s, state) && s.phase is FetchingRaw
                    && c == (Command::FetchRaw { uid: state.msg_id.uid })
            } else {
                step matches Step::Finish(r) && fails(r, ErrorKind::Conflict, stale_identity())
            },
            _ => step matches Step::Finish(r) && stray(r),
        },
        DetailPhase::FetchingRaw => match reply {
            Reply::Raw(Err(e)) => step matches Step::Finish(Ok(r)) && detail_failed(
                r,
                state,
                issue_of("fetch_raw_message"@, e, Some(state.msg_id.uid), Some(state.encoded@)),
            ),
            Reply::Raw(Ok(raw)) => exists|parsed: AppResult<ParsedMessage>|
                {
                    &&& #[trigger] message_parsed(
                        parsed,
                        raw@,
                        state.options.body_max_chars,
                        state.options.include_html,
                        state.options.extract_attachment_text,
                    )
                    &&& match parsed {
                        Err(e) => step matches Step::Finish(Ok(r)) && detail_failed(
                            r,
                            state,
                            issue_of(
                                "parse_message"@,
                                e,
                                Some(state.msg_id.uid),
                                Some(state.encoded@),
                            ),
                        ),
                        Ok(p) => detail_goes_on(
                            step,
                            state,
                            attachment_views(p.attachments@),
                            source_views(p.pdf_sources@),
                            p,
                        ),
                    }
                },
            _ => step matches Step::Finish(r) && stray(r),
        },
        DetailPhase::Extracting { parsed } => match reply {
            Reply::Text(text) => detail_goes_on(
                step,
                state,
                after_extraction(parsed, text, state.options.attachment_text_max_chars),
                without_last(source_views(parsed.pdf_sources@)),
                parsed,
            ),
            _ => step matches Step::Finish(r) && stray(r),
        },
        DetailPhase::FetchingFlags { parsed } => match reply {
            Reply::Flags(Ok(flags)) => {
                &&& step matches Step::Finish(Ok(r))
                &&& r.status == Status::Okay
                &&& r.issues@.len() == 0
                &&& r.account_id@ == state.account_id@
                &&& r.message is Some
                &&& detail_shows(r.message->Some_0, state, parsed, Some(flags))
            },
            Reply::Flags(Err(e)) => {
                &&& step matches Step::Finish(Ok(r))
                &&& r.status == Status::Partial
                &&& issue_views(r.issues@) == seq![
                    issue_of("fetch_flags"@, e, Some(state.msg_id.uid), Some(state.encoded@)),
                ]
                &&& r.account_id@ == state.account_id@
                &&& r.message is Some
                &&& detail_shows(r.message->Some_0, state, parsed, None)
            },
            _ => step matches Step::Finish(r) && stray(r),
        },
    }
}

fn detail_fail(state: DetailState, stage: &str, e: AppError, with_uid: bool) -> (step: Step<
    DetailState,
    MessageResult,
>)
    ensures
        step matches Step::Finish(Ok(r)) && detail_failed(
            r,
            state,
            issue_of(
                stage@,
                e,
                if with_uid {
                    Some(state.msg_id.uid)
                } else {
                    None
                },
                Some(state.encoded@),
            ),
        ),
{
    let uid = if with_uid {
        Some(state.msg_id.uid)
    } else {
        None
    };
    let issue = issue_about(stage, &e, uid, Some(state.encoded.as_str()));
    Step::Finish(
        Ok(
            MessageResult {
                status: Status::Failed,
                issues: single(issue),
                account_id: state.account_id,
                message: None,
            },
        ),
    )
}

fn detail_continue(state: DetailState, parsed: ParsedMessage, p: Ghost<ParsedMessage>) -> (step:
    Step<DetailState, MessageResult>)
    requires
        message_with(
            parsed,
            p@,
            attachment_views(parsed.attachments@),
            source_views(parsed.pdf_sources@),
        ),
    ensures
        detail_goes_on(
            step,
            state,
            attachment_views(parsed.attachments@),
            source_views(parsed.pdf_sources@),
            p@,
        ),
{
    if parsed.pdf_sources.len() > 0 {
        let content = parsed.pdf_sources[parsed.pdf_sources.len() - 1].content.clone();
        assert(content@ =~= parsed.pdf_sources@.last().content@);
        let command = Command::ExtractPdfText { content };
        Step::Send(DetailState { phase: DetailPhase::Extracting { parsed }, ..state }, command)
    } else {
        let command = Command::FetchFlags { uid: state.msg_id.uid };
        Step::Send(DetailState { phase: DetailPhase::FetchingFlags { parsed }, ..state }, command)
    }
}

fn build_detail(state: &DetailState, parsed: ParsedMessage, flags: Option<Vec<String>>) -> (d:
    MessageDetail)
    ensures
        detail_shows(d, *state, parsed, flags),
{
    let headers = if state.options.include_headers || state.options.include_all_headers {
        Some(curated_headers(&parsed.headers_all, state.options.include_all_headers))
    } else {
        None
    };
    let mut attachments = parsed.attachments;
    let ghost all = attachment_views(attachments@);
    attachments.truncate(MAX_ATTACHMENTS);
    assert(attachment_views(attachments@) =~= shown(all));
    MessageDetail {
        message_id: state.encoded.clone(),
        message_uri: build_message_uri(
            state.account_id.as_str(),
            state.msg_id.mailbox.as_str(),
            state.msg_id.uidvalidity,
            state.msg_id.uid,
        ),
        message_raw_uri: build_message_raw_uri(
            state.account_id.as_str(),
            state.msg_id.mailbox.as_str(),
            state.msg_id.uidvalidity,
            state.msg_id.uid,
        ),
        mailbox: state.msg_id.mailbox.clone(),
        uidvalidity: state.msg_id.uidvalidity,
        uid: state.msg_id.uid,
        date: parsed.date,
        from: parsed.from,
        to: parsed.to,
        cc: parsed.cc,
        subject: parsed.subject,
        flags,
        headers,
        body_text: parsed.body_text,
        body_html: parsed.body_html_sanitized,
        attachments: Some(attachments),
    }
}

/// Begins a message fetch: checks the request and asks for a session.
pub fn detail_begin(config: &ServerConfig, input: GetMessageInput) -> (step: Step<
    DetailState,
    MessageResult,
>)
    ensures
        detail_begun(step, *config, input),
{
    match validate_account_id(input.account_id.as_str()) {
        Ok(()) => {},
        Err(e) => {
            return Step::Finish(Err(e));
        },
    }
    match validate_chars(input.body_max_chars, 100, 20_000, "body_max_chars") {
        Ok(()) => {},
        Err(e) => {
            return Step::Finish(Err(e));
        },
    }
    let attachment_text_max_chars = match input.attachment_text_max_chars {
        Some(n) => n,
        None => 10_000,
    };
    if input.attachment_text_max_chars.is_some() && !input.extract_attachment_text {
        return Step::Finish(
            Err(AppError::invalid("attachment_text_max_chars requires extract_attachment_text=true")),
        );
    }
    match validate_chars(attachment_text_max_chars, 100, 50_000, "attachment_text_max_chars") {
        Ok(()) => {},
        Err(e) => {
            return Step::Finish(Err(e));
        },
    }
    let msg_id = match parse_and_validate_message_id(
        input.account_id.as_str(),
        input.message_id.as_str(),
    ) {
        Ok(id) => id,
        Err(e) => {
            return Step::Finish(Err(e));
        },
    };
    match config.get_account(input.account_id.as_str()) {
        Ok(_) => {},
        Err(e) => {
            return Step::Finish(Err(e));
        },
    }
    let encoded = msg_id.encode();
    let command = Command::Connect { account_id: input.account_id.clone() };
    Step::Send(
        DetailState {
            phase: DetailPhase::Connecting,
            account_id: input.account_id,
            msg_id,
            encoded,
            options: DetailOptions {
                body_max_chars: input.body_max_chars,
                include_headers: input.include_headers,
                include_all_headers: input.include_all_headers,
                include_html: input.include_html,
                extract_attachment_text: input.extract_attachment_text,
                attachment_text_max_chars,
            },
        },
        command,
    )
}

/// Takes a message fetch one step further with the reply to its last
/// command.
pub fn detail_resume(state: DetailState, reply: Reply) -> (step: Step<DetailState, MessageResult>)
    ensures
        detail_resumed(step, state, reply),
{
    let DetailState { phase, account_id, msg_id, encoded, options } = state;
    let rest = DetailState { phase: DetailPhase::Connecting, account_id, msg_id, encoded, options };
    match phase {
        DetailPhase::Connecting => match reply {
            Reply::Done(Ok(_)) => {
                let command = Command::SelectReadOnly { mailbox: rest.msg_id.mailbox.clone() };
                Step::Send(DetailState { phase: DetailPhase::Selecting, ..rest }, command)
            },
            Reply::Done(Err(e)) => detail_fail(rest, "connect_authenticated", e, false),
            _ => Step::Finish(Err(stray_reply())),
        },
        DetailPhase::Selecting => match reply {
            Reply::Epoch(selected) => match ensure_uidvalidity_matches(&rest.msg_id, selected) {
                Err(e) => Step::Finish(Err(e)),
                Ok(()) => {
                    let command = Command::FetchRaw { uid: rest.msg_id.uid };
                    Step::Send(DetailState { phase: DetailPhase::FetchingRaw, ..rest }, command)
                },
            },
            _ => Step::Finish(Err(stray_reply())),
        },
        DetailPhase::FetchingRaw => match reply {
            Reply::Raw(Err(e)) => detail_fail(rest, "fetch_raw_message", e, true),
            Reply::Raw(Ok(raw)) => {
                let parsed = parse_message(
                    raw.as_slice(),
                    rest.options.body_max_chars,
                    rest.options.include_html,
                    rest.options.extract_attachment_text,
                );
                match parsed {
                    Err(e) => detail_fail(rest, "parse_message", e, true),
                    Ok(p) => detail_continue(rest, p, Ghost(p)),
                }
            },
            _ => Step::Finish(Err(stray_reply())),
        },
        DetailPhase::Extracting { parsed } => match reply {
            Reply::Text(text) => {
                let ghost p = parsed;
                let mut parsed = parsed;
                let ghost sources = source_views(parsed.pdf_sources@);
                match parsed.pdf_sources.pop() {
                    Some(source) => {
                        assert(source_views(parsed.pdf_sources@) =~= sources.drop_last());
                        note_extracted_text(
                            &mut parsed.attachments,
                            source.attachment,
                            text,
                            rest.options.attachment_text_max_chars,
                        );
                    },
                    None => {},
                }
                detail_continue(rest, parsed, Ghost(p))
            },
            _ => Step::Finish(Err(stray_reply())),
        },
        DetailPhase::FetchingFlags { parsed } => match reply {
            Reply::Flags(Ok(flags)) => {
                let detail = build_detail(&rest, parsed, Some(flags));
                Step::Finish(
                    Ok(
                        MessageResult {
                            status: Status::Okay,
                            issues: Vec::new(),
                            account_id: rest.account_id,
                            message: Some(detail),
                        },
                    ),
                )
            },
            Reply::Flags(Err(e)) => {
                let issue = issue_about(
                    "fetch_flags",
                    &e,
                    Some(rest.msg_id.uid),
                    Some(rest.encoded.as_str()),
                );
                let detail = build_detail(&rest, parsed, None);
                Step::Finish(
                    Ok(
                        MessageResult {
                            status: Status::Partial,
                            issues: single(issue),
                            account_id: rest.account_id,
                            message: Some(detail),
                        },
                    ),
                )
            },
            _ => Step::Finish(Err(stray_reply())),
        },
    }
}

} // verus!
