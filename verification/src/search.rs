//! Searching a mailbox page by page.
//!
//! A first call runs the search and captures its result under a cursor, if
//! more matches are left than one page holds; a call with a cursor takes
//! the next page out of the captured result. A message whose summary cannot
//! be fetched is left out of the page and counted, and the page goes on.

use crate::config::{has_account, unknown_account_message, ServerConfig};
use crate::dates::Ymd;
use crate::engine::{
    is_connect, is_search, is_select_readonly, issue_views, record, single, stray, stray_reply,
    Command, Reply, Step,
};
use crate::errors::{AppError, AppResult};
use crate::message_id::{encode_spec, MessageId, MessageIdView};
use crate::mime::{
    header_of, header_value, header_views, mail_headers, opt_text, opt_truncated,
    parse_header_bytes, truncate_chars,
};
use crate::models::{MessageSummary, SearchMessagesInput};
use crate::pagination::{
    after_create, after_delete, after_get, after_update, deadline, later, lookup, CursorEntry,
    CursorSlot, CursorStore, StoreFacts,
};
use crate::query::{build_search_query_at, query_parts, query_text};
use crate::report::{
    first_message_id, is_hard_precondition_error, issue_about, issue_of,
    next_action_for_search_result, next_action_retry_verify, retry_verify, search_result_next,
    status_of, NextAction, Status, ToolIssue, ToolIssueView,
};
use crate::session::{fails, ErrorKind};
use crate::text::{decimal, push_decimal, str_eq};
use crate::uri::{build_message_raw_uri, build_message_uri, message_raw_uri, message_uri};
use crate::validate::{
    account_id_fault, search_input_fault, validate_account_id, validate_mailbox,
    validate_search_input,
};
use vstd::prelude::*;

verus! {

/// The largest number of messages on one page.
pub const MAX_SEARCH_LIMIT: usize = 50;

/// The largest number of matches that a cursor captures.
pub const MAX_CURSOR_UIDS_STORED: usize = 20_000;

/// What a search reports.
#[derive(Debug)]
pub struct SearchResultData {
    pub status: Status,
    pub issues: Vec<ToolIssue>,
    pub next_action: NextAction,
    pub account_id: String,
    pub mailbox: String,
    /// Number of matches in all.
    pub total: usize,
    /// Number of messages of this page.
    pub attempted: usize,
    /// Number of messages of this page that are shown.
    pub returned: usize,
    /// Number of messages of this page that could not be fetched.
    pub failed: usize,
    pub messages: Vec<MessageSummary>,
    /// The token under which the next page is had, if there is one.
    pub next_cursor: Option<String>,
    pub has_more: bool,
}

/// The result of a search as one call sees it: every match, newest first,
/// and where the page of this call starts.
#[derive(Debug)]
pub struct SearchSnapshot {
    pub uids_desc: Vec<u32>,
    pub offset: usize,
    pub include_snippet: bool,
    pub snippet_max_chars: usize,
    /// The cursor that the request named, if it named one.
    pub cursor_id_from_request: Option<String>,
}

/// What the surroundings of a call give it: a reading of the clock of the
/// cursor store, the day it is, and a token for a cursor that may have to be
/// made.
#[derive(Debug)]
pub struct Moment {
    pub now: u128,
    pub today: Ymd,
    pub token: String,
}

/// A page that is being fetched.
#[derive(Debug)]
pub struct Page {
    /// The epoch of the mailbox.
    pub epoch: u32,
    pub snapshot: SearchSnapshot,
    /// Index of the match whose summary is being fetched.
    pub position: usize,
    /// Index behind the last match of the page.
    pub end: usize,
    /// The summaries fetched so far.
    pub messages: Vec<MessageSummary>,
    /// The issues met so far, one for each summary that could not be
    /// fetched.
    pub issues: Vec<ToolIssue>,
}

/// What a search waits for.
#[derive(Debug)]
pub enum SearchPhase {
    /// The session is being opened.
    Connecting,
    /// The mailbox is being selected for reading.
    Selecting,
    /// The search is running, in a mailbox of the epoch `epoch`.
    Searching { epoch: u32 },
    /// The summary of one message of the page is being fetched.
    Fetching { page: Page },
}

/// A search under way.
#[derive(Debug)]
pub struct SearchState {
    pub phase: SearchPhase,
    pub input: SearchMessagesInput,
}

// ---------------------------------------------------------------------------
// Pages
// ---------------------------------------------------------------------------

/// The number of messages on a page for a request that asks for `limit`:
/// at least one and at most `MAX_SEARCH_LIMIT`.
pub open spec fn page_size(limit: usize) -> usize {
    if limit < 1 {
        1
    } else if limit > MAX_SEARCH_LIMIT {
        MAX_SEARCH_LIMIT
    } else {
        limit
    }
}

/// Index behind the last match of the page that starts at `offset`.
pub open spec fn page_end(total: usize, offset: usize, limit: usize) -> usize {
    if total - offset <= page_size(limit) {
        total
    } else {
        (offset + page_size(limit)) as usize
    }
}

/// Index behind the last match of the page that starts at `offset`.
pub fn end_of_page(total: usize, offset: usize, limit: usize) -> (end: usize)
    requires
        offset <= total,
    ensures
        end == page_end(total, offset, limit),
        offset <= end <= total,
        end - offset <= MAX_SEARCH_LIMIT,
        offset < total ==> offset < end,
{
    let size = if limit < 1 {
        1
    } else if limit > MAX_SEARCH_LIMIT {
        MAX_SEARCH_LIMIT
    } else {
        limit
    };
    if total - offset <= size {
        total
    } else {
        offset + size
    }
}

// ---------------------------------------------------------------------------
// Snapshots
// ---------------------------------------------------------------------------

/// The length of snippets for a request: what it asks for, else 200, within
/// 50 to 500.
pub open spec fn snippet_length(wanted: Option<usize>) -> usize {
    let n = match wanted {
        Some(n) => n,
        None => 200,
    };
    if n < 50 {
        50
    } else if n > 500 {
        500
    } else {
        n
    }
}

/// The message that rejects a search with too many matches.
pub open spec fn too_many_message(matches: usize) -> Seq<char> {
    "search matched "@ + decimal(matches as nat) + " messages; narrow filters to at most "@
        + decimal(MAX_CURSOR_UIDS_STORED as nat) + " results"@
}

/// What the matches of a new search yield: a snapshot that starts at the
/// first match, or `InvalidInput` if there are more matches than a cursor
/// captures.
pub open spec fn search_started(
    r: AppResult<SearchSnapshot>,
    input: SearchMessagesInput,
    uids: Vec<u32>,
) -> bool {
    if uids@.len() > MAX_CURSOR_UIDS_STORED {
        fails(r, ErrorKind::InvalidInput, too_many_message(uids@.len() as usize))
    } else {
        r == Ok::<SearchSnapshot, AppError>(
            SearchSnapshot {
                uids_desc: uids,
                offset: 0,
                include_snippet: input.include_snippet,
                snippet_max_chars: snippet_length(input.snippet_max_chars),
                cursor_id_from_request: None,
            },
        )
    }
}

/// Makes the snapshot of a new search out of its matches.
pub fn start_new_search(input: &SearchMessagesInput, uids: Vec<u32>) -> (r: AppResult<
    SearchSnapshot,
>)
    ensures
        search_started(r, *input, uids),
{
    if uids.len() > MAX_CURSOR_UIDS_STORED {
        let mut m = "search matched ".to_owned();
        push_decimal(&mut m, uids.len() as u64);
        m.append(" messages; narrow filters to at most ");
        push_decimal(&mut m, MAX_CURSOR_UIDS_STORED as u64);
        m.append(" results");
        return Err(AppError::InvalidInput(m));
    }
    let wanted = match input.snippet_max_chars {
        Some(n) => n,
        None => 200,
    };
    let snippet_max_chars = if wanted < 50 {
        50
    } else if wanted > 500 {
        500
    } else {
        wanted
    };
    Ok(
        SearchSnapshot {
            uids_desc: uids,
            offset: 0,
            include_snippet: input.include_snippet,
            snippet_max_chars,
            cursor_id_from_request: None,
        },
    )
}

/// The store `before` with the slots `slots`, at the later of its clock
/// reading and `now`.
pub open spec fn store_at(before: StoreFacts, slots: Seq<CursorSlot>, now: u128) -> StoreFacts {
    StoreFacts { slots, clock: later(before.clock, now), ..before }
}

/// What taking up a cursor yields.
///
/// A cursor that is unknown or has expired is invalid input, and so is one
/// of another account or mailbox. A cursor that was captured in another
/// epoch of the mailbox is deleted and raises a `Conflict`: the mailbox has
/// changed and the search must be run again. Else the snapshot is what the
/// cursor captured.
pub open spec fn cursor_resumed(
    r: AppResult<SearchSnapshot>,
    before: StoreFacts,
    after: StoreFacts,
    input: SearchMessagesInput,
    epoch: u32,
    cursor: Seq<char>,
    now: u128,
) -> bool {
    let t = later(before.clock, now);
    let seen = after_get(before.slots, t);
    match lookup(seen, cursor) {
        None => after == store_at(before, seen, now) && fails(
            r,
            ErrorKind::InvalidInput,
            "cursor is invalid or expired"@,
        ),
        Some(entry) => if entry.account_id@ != input.account_id@ || entry.mailbox@
            != input.mailbox@ {
            after == store_at(before, seen, now) && fails(
                r,
                ErrorKind::InvalidInput,
                "cursor does not match account/mailbox"@,
            )
        } else if entry.uidvalidity != epoch {
            after == store_at(before, after_delete(seen, cursor, t), now) && fails(
                r,
                ErrorKind::Conflict,
                "mailbox snapshot changed; rerun search"@,
            )
        } else {
            &&& after == store_at(before, seen, now)
            &&& r is Ok
            &&& r->Ok_0.uids_desc@ == entry.uids_desc@
            &&& r->Ok_0.offset == entry.offset
            &&& r->Ok_0.include_snippet == entry.include_snippet
            &&& r->Ok_0.snippet_max_chars == entry.snippet_max_chars
            &&& opt_text(r->Ok_0.cursor_id_from_request) == Some(cursor)
        },
    }
}

/// Takes up the search that the cursor `cursor_id` stands for, at the clock
/// reading `now`.
pub fn resume_cursor_search(
    cursors: &mut CursorStore,
    input: &SearchMessagesInput,
    uidvalidity: u32,
    cursor_id: String,
    now: u128,
) -> (r: AppResult<SearchSnapshot>)
    ensures
        cursor_resumed(
            r,
            old(cursors).facts(),
            final(cursors).facts(),
            *input,
            uidvalidity,
            cursor_id@,
            now,
        ),
{
    let entry = match cursors.get_at(cursor_id.as_str(), now) {
        Some(e) => e,
        None => {
            return Err(AppError::invalid("cursor is invalid or expired"));
        },
    };
    if !str_eq(entry.account_id.as_str(), input.account_id.as_str()) || !str_eq(
        entry.mailbox.as_str(),
        input.mailbox.as_str(),
    ) {
        return Err(AppError::invalid("cursor does not match account/mailbox"));
    }
    if entry.uidvalidity != uidvalidity {
        cursors.delete_at(cursor_id.as_str(), now);
        return Err(AppError::Conflict("mailbox snapshot changed; rerun search".to_owned()));
    }
    Ok(
        SearchSnapshot {
            uids_desc: entry.uids_desc,
            offset: entry.offset,
            include_snippet: entry.include_snippet,
            snippet_max_chars: entry.snippet_max_chars,
            cursor_id_from_request: Some(cursor_id),
        },
    )
}

// ---------------------------------------------------------------------------
// Summaries
// ---------------------------------------------------------------------------

/// The summary `m` shows the message `uid` of a mailbox with the headers
/// `headers` and the flags `flags`.
pub open spec fn summary_shows(
    m: MessageSummary,
    account_id: Seq<char>,
    mailbox: Seq<char>,
    epoch: u32,
    uid: u32,
    headers: Seq<(Seq<char>, Seq<char>)>,
    flags: Vec<String>,
    include_snippet: bool,
    snippet_max_chars: usize,
) -> bool {
    &&& m.message_id@ == encode_spec(
        MessageIdView { account_id, mailbox, uidvalidity: epoch, uid },
    )
    &&& m.message_uri@ == message_uri(account_id, mailbox, epoch, uid)
    &&& m.message_raw_uri@ == message_raw_uri(account_id, mailbox, epoch, uid)
    &&& m.mailbox@ == mailbox
    &&& m.uidvalidity == epoch
    &&& m.uid == uid
    &&& opt_text(m.date) == header_of(headers, "date"@)
    &&& opt_text(m.from) == header_of(headers, "from"@)
    &&& opt_text(m.subject) == header_of(headers, "subject"@)
    &&& m.flags == Some(flags)
    &&& opt_text(m.snippet) == if include_snippet {
        opt_truncated(header_of(headers, "subject"@), snippet_max_chars)
    } else {
        None
    }
}

/// What the fetch of the headers and flags of the message `uid` yields for
/// the page: its summary, or the issue that leaves it out. The issue names
/// the step that failed: the fetch, or the reading of the headers.
pub open spec fn summarized(
    r: Result<MessageSummary, ToolIssue>,
    account_id: Seq<char>,
    mailbox: Seq<char>,
    epoch: u32,
    uid: u32,
    fetched: AppResult<(Vec<u8>, Vec<String>)>,
    include_snippet: bool,
    snippet_max_chars: usize,
) -> bool {
    match fetched {
        Err(e) => r is Err && r->Err_0.deep_view() == issue_of(
            "fetch_headers_and_flags"@,
            e,
            Some(uid),
            None,
        ),
        Ok((bytes, flags)) => match mail_headers(bytes@) {
            Err(m) => exists|e: AppError|
                #![trigger fails::<()>(Err(e), ErrorKind::Internal, "failed to parse message headers: "@ + m)]
                fails::<()>(Err(e), ErrorKind::Internal, "failed to parse message headers: "@ + m)
                    && r is Err && r->Err_0.deep_view() == issue_of(
                    "parse_header_bytes"@,
                    e,
                    Some(uid),
                    None,
                ),
            Ok(headers) => r is Ok && summary_shows(
                r->Ok_0,
                account_id,
                mailbox,
                epoch,
                uid,
                headers,
                flags,
                include_snippet,
                snippet_max_chars,
            ),
        },
    }
}

/// The summary of the message `uid` of a mailbox, made of its headers and
/// its flags. The snippet, if one is asked for, is the subject cut down to
/// `snippet_max_chars` characters.
pub fn summary_of(
    account_id: &str,
    mailbox: &str,
    uidvalidity: u32,
    uid: u32,
    headers: &Vec<(String, String)>,
    flags: Vec<String>,
    include_snippet: bool,
    snippet_max_chars: usize,
) -> (m: MessageSummary)
    ensures
        summary_shows(
            m,
            account_id@,
            mailbox@,
            uidvalidity,
            uid,
            header_views(headers@),
            flags,
            include_snippet,
            snippet_max_chars,
        ),
{
    let date = header_value(headers, "date");
    let from = header_value(headers, "from");
    let subject = header_value(headers, "subject");
    let snippet = if include_snippet {
        match &subject {
            Some(s) => Some(truncate_chars(s.clone(), snippet_max_chars)),
            None => None,
        }
    } else {
        None
    };
    let id = MessageId {
        account_id: account_id.to_owned(),
        mailbox: mailbox.to_owned(),
        uidvalidity,
        uid,
    };
    MessageSummary {
        message_id: id.encode(),
        message_uri: build_message_uri(account_id, mailbox, uidvalidity, uid),
        message_raw_uri: build_message_raw_uri(account_id, mailbox, uidvalidity, uid),
        mailbox: mailbox.to_owned(),
        uidvalidity,
        uid,
        date,
        from,
        subject,
        flags: Some(flags),
        snippet,
    }
}

/// Makes the summary of one message of a page out of what was fetched for
/// it.
pub fn build_message_summary(
    account_id: &str,
    mailbox: &str,
    uidvalidity: u32,
    uid: u32,
    fetched: AppResult<(Vec<u8>, Vec<String>)>,
    include_snippet: bool,
    snippet_max_chars: usize,
) -> (r: Result<MessageSummary, ToolIssue>)
    ensures
        summarized(
            r,
            account_id@,
            mailbox@,
            uidvalidity,
            uid,
            fetched,
            include_snippet,
            snippet_max_chars,
        ),
{
    let (header_bytes, flags) = match fetched {
        Ok(pair) => pair,
        Err(e) => {
            return Err(issue_about("fetch_headers_and_flags", &e, Some(uid), None));
        },
    };
    let headers = match parse_header_bytes(header_bytes.as_slice()) {
        Ok(h) => h,
        Err(e) => {
            assert(fails::<()>(
                Err(e),
                ErrorKind::Internal,
                "failed to parse message headers: "@ + mail_headers(header_bytes@)->Err_0,
            ));
            return Err(issue_about("parse_header_bytes", &e, Some(uid), None));
        },
    };
    Ok(
        summary_of(
            account_id,
            mailbox,
            uidvalidity,
            uid,
            &headers,
            flags,
            include_snippet,
            snippet_max_chars,
        ),
    )
}

// ---------------------------------------------------------------------------
// Reports
// ---------------------------------------------------------------------------

/// The result `r` reports a search that failed with the issue `issue`
/// before it had a page.
pub open spec fn search_failed(r: SearchResultData, input: SearchMessagesInput, issue: ToolIssueView) -> bool {
    &&& r.status == Status::Failed
    &&& issue_views(r.issues@) == seq![issue]
    &&& r.next_action.deep_view() == retry_verify(input.account_id@)
    &&& r.account_id@ == input.account_id@
    &&& r.mailbox@ == input.mailbox@
    &&& r.total == 0
    &&& r.attempted == 0
    &&& r.returned == 0
    &&& r.failed == 0
    &&& r.messages@.len() == 0
    &&& r.next_cursor is None
    &&& !r.has_more
}

/// The cursor entry that captures the snapshot `snapshot` for the pages
/// from `offset` on.
pub open spec fn captured(
    input: SearchMessagesInput,
    epoch: u32,
    snapshot: SearchSnapshot,
    offset: usize,
    expires_at: u128,
) -> CursorEntry {
    CursorEntry {
        account_id: input.account_id,
        mailbox: input.mailbox,
        uidvalidity: epoch,
        uids_desc: snapshot.uids_desc,
        offset,
        include_snippet: snapshot.include_snippet,
        snippet_max_chars: snapshot.snippet_max_chars,
        expires_at,
    }
}

/// What becomes of the cursor store when a page ends at `end`.
///
/// If matches are left, the cursor of the request is advanced to `end`, or,
/// if the request named none, a cursor is made under the token of the
/// moment. If no match is left, the cursor of the request is deleted: it is
/// spent. A first page that holds every match leaves the store alone.
pub open spec fn cursors_after_page(
    before: StoreFacts,
    input: SearchMessagesInput,
    epoch: u32,
    snapshot: SearchSnapshot,
    end: usize,
    moment: Moment,
) -> StoreFacts {
    let t = later(before.clock, moment.now);
    if end < snapshot.uids_desc@.len() {
        match snapshot.cursor_id_from_request {
            Some(c) => store_at(
                before,
                after_update(before.slots, c@, end, t, before.ttl_seconds),
                moment.now,
            ),
            None => store_at(
                before,
                after_create(
                    before.slots,
                    CursorSlot {
                        token: moment.token,
                        entry: captured(input, epoch, snapshot, end, deadline(t, before.ttl_seconds)),
                    },
                    t,
                    before.max_entries as nat,
                ),
                moment.now,
            ),
        }
    } else {
        match snapshot.cursor_id_from_request {
            Some(c) => store_at(before, after_delete(before.slots, c@, t), moment.now),
            None => before,
        }
    }
}

/// The token under which the page after the one that ends at `end` is had.
pub open spec fn cursor_after_page(snapshot: SearchSnapshot, end: usize, moment: Moment) -> Option<
    Seq<char>,
> {
    if end < snapshot.uids_desc@.len() {
        match snapshot.cursor_id_from_request {
            Some(c) => Some(c@),
            None => Some(moment.token@),
        }
    } else {
        None
    }
}

/// The result `r` reports the page of `snapshot` that ends at `end`, with
/// the summaries `messages` and the issues `issues`.
pub open spec fn page_reported(
    r: SearchResultData,
    input: SearchMessagesInput,
    snapshot: SearchSnapshot,
    end: usize,
    messages: Seq<MessageSummary>,
    issues: Seq<ToolIssueView>,
    moment: Moment,
) -> bool {
    &&& r.status == status_of(issues.len() == 0, messages.len() > 0)
    &&& issue_views(r.issues@) == issues
    &&& r.account_id@ == input.account_id@
    &&& r.mailbox@ == input.mailbox@
    &&& r.total == snapshot.uids_desc@.len()
    &&& r.attempted == end - snapshot.offset
    &&& r.returned == messages.len()
    &&& r.failed == issues.len()
    &&& r.messages@ == messages
    &&& opt_text(r.next_cursor) == cursor_after_page(snapshot, end, moment)
    &&& r.has_more == (end < snapshot.uids_desc@.len())
    &&& r.next_action.deep_view() == search_result_next(
        r.status,
        input.account_id@,
        input.mailbox@,
        input.limit,
        cursor_after_page(snapshot, end, moment),
        first_message_id(messages),
    )
}

fn fail_search(input: SearchMessagesInput, stage: &str, e: AppError) -> (step: Step<
    SearchState,
    SearchResultData,
>)
    ensures
        step matches Step::Finish(Ok(r)) && search_failed(
            r,
            input,
            issue_of(stage@, e, None, None),
        ),
{
    let issue = issue_about(stage, &e, None, None);
    let next_action = next_action_retry_verify(input.account_id.as_str());
    Step::Finish(
        Ok(
            SearchResultData {
                status: Status::Failed,
                issues: single(issue),
                next_action,
                account_id: input.account_id,
                mailbox: input.mailbox,
                total: 0,
                attempted: 0,
                returned: 0,
                failed: 0,
                messages: Vec::new(),
                next_cursor: None,
                has_more: false,
            },
        ),
    )
}

fn finish_page(
    cursors: &mut CursorStore,
    input: SearchMessagesInput,
    page: Page,
    moment: Moment,
) -> (r: SearchResultData)
    requires
        page.snapshot.offset <= page.end <= page.snapshot.uids_desc@.len(),
    ensures
        page_reported(
            r,
            input,
            page.snapshot,
            page.end,
            page.messages@,
            issue_views(page.issues@),
            moment,
        ),
        final(cursors).facts() == cursors_after_page(
            old(cursors).facts(),
            input,
            page.epoch,
            page.snapshot,
            page.end,
            moment,
        ),
{
    let Page { epoch, snapshot, position: _, end, messages, issues } = page;
    let SearchSnapshot {
        uids_desc,
        offset,
        include_snippet,
        snippet_max_chars,
        cursor_id_from_request,
    } = snapshot;
    let total = uids_desc.len();
    let has_more = end < total;
    let next_cursor = if has_more {
        match cursor_id_from_request {
            Some(existing) => {
                cursors.update_offset_at(existing.as_str(), end, moment.now);
                Some(existing)
            },
            None => {
                let token = moment.token.clone();
                cursors.create_at(
                    moment.token,
                    CursorEntry {
                        account_id: input.account_id.clone(),
                        mailbox: input.mailbox.clone(),
                        uidvalidity: epoch,
                        uids_desc,
                        offset: end,
                        include_snippet,
                        snippet_max_chars,
                        expires_at: 0,
                    },
                    moment.now,
                );
                Some(token)
            },
        }
    } else {
        match cursor_id_from_request {
            Some(existing) => {
                cursors.delete_at(existing.as_str(), moment.now);
            },
            None => {},
        }
        None
    };
    let status = crate::report::status_from_issue_and_counts(&issues, messages.len() > 0);
    let cursor_text = match &next_cursor {
        Some(c) => Some(c.as_str()),
        None => None,
    };
    let next_action = next_action_for_search_result(
        status,
        input.account_id.as_str(),
        input.mailbox.as_str(),
        input.limit,
        cursor_text,
        &messages,
    );
    SearchResultData {
        status,
        failed: issues.len(),
        issues,
        next_action,
        account_id: input.account_id,
        mailbox: input.mailbox,
        total,
        attempted: end - offset,
        returned: messages.len(),
        messages,
        next_cursor,
        has_more,
    }
}

// ---------------------------------------------------------------------------
// The machine
// ---------------------------------------------------------------------------

/// Why a search cannot begin, if it cannot: the request is contradictory or
/// out of range, the account identifier is malformed, or the account is
/// unknown.
pub open spec fn search_fault(config: ServerConfig, input: SearchMessagesInput) -> Option<
    (ErrorKind, Seq<char>),
> {
    if search_input_fault(input) is Some {
        Some((ErrorKind::InvalidInput, search_input_fault(input)->Some_0))
    } else if account_id_fault(input.account_id@) is Some {
        Some((ErrorKind::InvalidInput, account_id_fault(input.account_id@)->Some_0))
    } else if !has_account(config.accounts@, input.account_id@) {
        Some((ErrorKind::NotFound, unknown_account_message(input.account_id@)))
    } else {
        None
    }
}

/// The first step of a search.
pub open spec fn search_begun(
    step: Step<SearchState, SearchResultData>,
    config: ServerConfig,
    input: SearchMessagesInput,
) -> bool {
    match search_fault(config, input) {
        Some((kind, message)) => step matches Step::Finish(r) && fails(r, kind, message),
        None => step matches Step::Send(s, c) && is_connect(c, input.account_id@) && s.phase is Connecting
            && s.input == input,
    }
}

/// The search ends with an error that says that the reply does not answer
/// the command.
pub open spec fn ends_stray(step: Step<SearchState, SearchResultData>) -> bool {
    step matches Step::Finish(r) && stray(r)
}

/// The search ends with an error of the class `kind` and the message
/// `message`, and no report.
pub open spec fn ends_with_error(
    step: Step<SearchState, SearchResultData>,
    kind: ErrorKind,
    message: Seq<char>,
) -> bool {
    step matches Step::Finish(r) && fails(r, kind, message)
}

/// The search ends as failed with the issue `issue`.
pub open spec fn ends_failed(
    step: Step<SearchState, SearchResultData>,
    input: SearchMessagesInput,
    issue: ToolIssueView,
) -> bool {
    step matches Step::Finish(Ok(r)) && search_failed(r, input, issue)
}

/// The search ends with the report of a page.
pub open spec fn ends_with_page(
    step: Step<SearchState, SearchResultData>,
    input: SearchMessagesInput,
    snapshot: SearchSnapshot,
    end: usize,
    messages: Seq<MessageSummary>,
    issues: Seq<ToolIssueView>,
    moment: Moment,
) -> bool {
    step matches Step::Finish(Ok(r)) && page_reported(
        r,
        input,
        snapshot,
        end,
        messages,
        issues,
        moment,
    )
}

/// The search goes on with the fetch of the summary at `position`, with the
/// summaries `messages` and the issues `issues` in hand.
pub open spec fn page_goes_on(
    step: Step<SearchState, SearchResultData>,
    input: SearchMessagesInput,
    epoch: u32,
    snapshot: SearchSnapshot,
    position: usize,
    end: usize,
    messages: Seq<MessageSummary>,
    issues: Seq<ToolIssueView>,
) -> bool {
    &&& step matches Step::Send(s, c)
    &&& s.input == input
    &&& s.phase matches SearchPhase::Fetching { page }
    &&& page.epoch == epoch
    &&& page.snapshot == snapshot
    &&& page.position == position
    &&& page.end == end
    &&& page.messages@ == messages
    &&& issue_views(page.issues@) == issues
    &&& c == (Command::FetchHeadersAndFlags { uid: snapshot.uids_desc@[position as int] })
}

/// The step `step` begins the page of `snapshot`.
///
/// A snapshot that starts behind its last match is invalid input. A page
/// without messages is reported at once; else the fetch of its first
/// summary is asked for.
pub open spec fn page_begun(
    step: Step<SearchState, SearchResultData>,
    before: StoreFacts,
    after: StoreFacts,
    input: SearchMessagesInput,
    epoch: u32,
    snapshot: SearchSnapshot,
    moment: Moment,
) -> bool {
    let total = snapshot.uids_desc@.len() as usize;
    let end = page_end(total, snapshot.offset, input.limit);
    if snapshot.offset > total {
        after == before && ends_with_error(
            step,
            ErrorKind::InvalidInput,
            "cursor offset is out of range"@,
        )
    } else if snapshot.offset == end {
        after == cursors_after_page(before, input, epoch, snapshot, end, moment) && ends_with_page(
            step,
            input,
            snapshot,
            end,
            Seq::empty(),
            Seq::empty(),
            moment,
        )
    } else {
        after == before && page_goes_on(
            step,
            input,
            epoch,
            snapshot,
            snapshot.offset,
            end,
            Seq::empty(),
            Seq::empty(),
        )
    }
}

/// The page `page` is one that the search made: its position lies within
/// it, it lies within the matches, and each match before its position has
/// left a summary or an issue.
pub open spec fn page_sound(page: Page) -> bool {
    &&& page.snapshot.offset <= page.position < page.end <= page.snapshot.uids_desc@.len()
    &&& page.messages@.len() + page.issues@.len() == page.position - page.snapshot.offset
}

/// The summaries of a page with the outcome `out` of one more fetch.
pub open spec fn messages_with(messages: Seq<MessageSummary>, out: Result<MessageSummary, ToolIssue>) -> Seq<
    MessageSummary,
> {
    match out {
        Ok(m) => messages.push(m),
        Err(_) => messages,
    }
}

/// The issues of a page with the outcome `out` of one more fetch.
pub open spec fn issues_with(issues: Seq<ToolIssueView>, out: Result<MessageSummary, ToolIssue>) -> Seq<
    ToolIssueView,
> {
    match out {
        Ok(_) => issues,
        Err(i) => issues.push(i.deep_view()),
    }
}

/// The step `step` follows the outcome `out` of the fetch at the position of
/// `page`: the next fetch of the page, or the report of the page.
pub open spec fn page_advanced(
    step: Step<SearchState, SearchResultData>,
    before: StoreFacts,
    after: StoreFacts,
    input: SearchMessagesInput,
    page: Page,
    out: Result<MessageSummary, ToolIssue>,
    moment: Moment,
) -> bool {
    let messages = messages_with(page.messages@, out);
    let issues = issues_with(issue_views(page.issues@), out);
    if page.position + 1 < page.end {
        after == before && page_goes_on(
            step,
            input,
            page.epoch,
            page.snapshot,
            (page.position + 1) as usize,
            page.end,
            messages,
            issues,
        )
    } else {
        after == cursors_after_page(before, input, page.epoch, page.snapshot, page.end, moment)
            && ends_with_page(step, input, page.snapshot, page.end, messages, issues, moment)
    }
}

/// The step `step` follows the reply `reply` in the state `state`, and
/// leaves the cursor store `before` as `after`.
///
/// A session that cannot be opened, a mailbox that cannot be selected and a
/// search that fails on the server end the call as failed. A request that
/// cannot be turned into a search expression, a cursor that cannot be taken
/// up and a search with too many matches end it with an error and no
/// report. A summary that cannot be fetched is left out of the page.
pub open spec fn search_resumed(
    step: Step<SearchState, SearchResultData>,
    before: StoreFacts,
    after: StoreFacts,
    state: SearchState,
    reply: Reply,
    moment: Moment,
) -> bool {
    let input = state.input;
    match state.phase {
        SearchPhase::Connecting => after == before && match reply {
            Reply::Done(Ok(_)) => step matches Step::Send(s, c) && s.input == input && s.phase is Selecting
                && is_select_readonly(c, input.mailbox@),
            Reply::Done(Err(e)) => step matches Step::Finish(Ok(r)) && search_failed(
                r,
                input,
                issue_of("connect_authenticated"@, e, None, None),
            ),
            _ => step matches Step::Finish(r) && stray(r),
        },
        SearchPhase::Selecting => match reply {
            Reply::Epoch(Err(e)) => after == before && ends_failed(
                step,
                input,
                issue_of("select_mailbox_readonly"@, e, None, None),
            ),
            Reply::Epoch(Ok(epoch)) => match input.cursor {
                Some(cursor) => exists|taken: AppResult<SearchSnapshot>, mid: StoreFacts|
                    {
                        &&& #[trigger] cursor_resumed(
                            taken,
                            before,
                            mid,
                            input,
                            epoch,
                            cursor@,
                            moment.now,
                        )
                        &&& match taken {
                            Err(e) => after == mid && step == Step::<
                                SearchState,
                                SearchResultData,
                            >::Finish(Err(e)),
                            Ok(snapshot) => page_begun(
                                step,
                                mid,
                                after,
                                input,
                                epoch,
                                snapshot,
                                moment,
                            ),
                        }
                    },
                None => after == before && match query_parts(input, moment.today) {
                    Err(m) => step matches Step::Finish(r) && fails(r, ErrorKind::InvalidInput, m),
                    Ok(parts) => step matches Step::Send(s, c) && s.input == input && s.phase
                        == (SearchPhase::Searching { epoch }) && is_search(c, query_text(parts)),
                },
            },
            _ => after == before && ends_stray(step),
        },
        SearchPhase::Searching { epoch } => match reply {
            Reply::Uids(Err(e)) => after == before && if e is InvalidInput || e is Conflict {
                step == Step::<SearchState, SearchResultData>::Finish(Err(e))
            } else {
                step matches Step::Finish(Ok(r)) && search_failed(
                    r,
                    input,
                    issue_of("uid_search"@, e, None, None),
                )
            },
            Reply::Uids(Ok(uids)) => if uids@.len() > MAX_CURSOR_UIDS_STORED {
                after == before && ends_with_error(
                    step,
                    ErrorKind::InvalidInput,
                    too_many_message(uids@.len() as usize),
                )
            } else {
                page_begun(
                    step,
                    before,
                    after,
                    input,
                    epoch,
                    SearchSnapshot {
                        uids_desc: uids,
                        offset: 0,
                        include_snippet: input.include_snippet,
                        snippet_max_chars: snippet_length(input.snippet_max_chars),
                        cursor_id_from_request: None,
                    },
                    moment,
                )
            },
            _ => after == before && ends_stray(step),
        },
        SearchPhase::Fetching { page } => match reply {
            Reply::HeadersAndFlags(fetched) => if !page_sound(page) {
                after == before && ends_stray(step)
            } else {
                exists|out: Result<MessageSummary, ToolIssue>|
                    {
                        &&& #[trigger] summarized(
                            out,
                            input.account_id@,
                            input.mailbox@,
                            page.epoch,
                            page.snapshot.uids_desc@[page.position as int],
                            fetched,
                            page.snapshot.include_snippet,
                            page.snapshot.snippet_max_chars,
                        )
                        &&& page_advanced(step, before, after, input, page, out, moment)
                    }
            },
            _ => after == before && ends_stray(step),
        },
    }
}

fn begin_page(
    cursors: &mut CursorStore,
    input: SearchMessagesInput,
    epoch: u32,
    snapshot: SearchSnapshot,
    moment: Moment,
) -> (step: Step<SearchState, SearchResultData>)
    ensures
        page_begun(
            step,
            old(cursors).facts(),
            final(cursors).facts(),
            input,
            epoch,
            snapshot,
            moment,
        ),
{
    let total = snapshot.uids_desc.len();
    if snapshot.offset > total {
        return Step::Finish(Err(AppError::invalid("cursor offset is out of range")));
    }
    let end = end_of_page(total, snapshot.offset, input.limit);
    let position = snapshot.offset;
    let page = Page {
        epoch,
        snapshot,
        position,
        end,
        messages: Vec::new(),
        issues: Vec::new(),
    };
    assert(issue_views(page.issues@) =~= Seq::<ToolIssueView>::empty());
    assert(page.messages@ =~= Seq::<MessageSummary>::empty());
    if position == end {
        Step::Finish(Ok(finish_page(cursors, input, page, moment)))
    } else {
        let command = Command::FetchHeadersAndFlags { uid: page.snapshot.uids_desc[position] };
        Step::Send(SearchState { phase: SearchPhase::Fetching { page }, input }, command)
    }
}

fn advance_page(
    cursors: &mut CursorStore,
    input: SearchMessagesInput,
    page: Page,
    out: Result<MessageSummary, ToolIssue>,
    moment: Moment,
) -> (step: Step<SearchState, SearchResultData>)
    requires
        page_sound(page),
    ensures
        page_advanced(step, old(cursors).facts(), final(cursors).facts(), input, page, out, moment),
{
    let mut next = page;
    match out {
        Ok(m) => {
            next.messages.push(m);
        },
        Err(i) => {
            record(&mut next.issues, i);
        },
    }
    if next.position + 1 < next.end {
        next.position = next.position + 1;
        let command = Command::FetchHeadersAndFlags {
            uid: next.snapshot.uids_desc[next.position],
        };
        Step::Send(SearchState { phase: SearchPhase::Fetching { page: next }, input }, command)
    } else {
        Step::Finish(Ok(finish_page(cursors, input, next, moment)))
    }
}

/// Begins a search: checks the request and asks for a session.
pub fn search_begin(config: &ServerConfig, input: SearchMessagesInput) -> (step: Step<
    SearchState,
    SearchResultData,
>)
    ensures
        search_begun(step, *config, input),
{
    match validate_search_input(&input) {
        Ok(()) => {},
        Err(e) => {
            return Step::Finish(Err(e));
        },
    }
    match validate_account_id(input.account_id.as_str()) {
        Ok(()) => {},
        Err(e) => {
            return Step::Finish(Err(e));
        },
    }
    match validate_mailbox(input.mailbox.as_str()) {
        Ok(()) => {},
        Err(e) => {
            return Step::Finish(Err(e));
        },
    }
    match config.get_account(input.account_id.as_str()) {
        Ok(_) => {},
        Err(e) => {
            return Step::Finish(Err(e));
        },
    }
    let command = Command::Connect { account_id: input.account_id.clone() };
    Step::Send(SearchState { phase: SearchPhase::Connecting, input }, command)
}

/// Takes a search one step further with the reply to its last command, at
/// the moment `moment`.
pub fn search_resume_at(
    cursors: &mut CursorStore,
    state: SearchState,
    reply: Reply,
    moment: Moment,
) -> (step: Step<SearchState, SearchResultData>)
    ensures
        search_resumed(
            step,
            old(cursors).facts(),
            final(cursors).facts(),
            state,
            reply,
            moment,
        ),
{
    let SearchState { phase, input } = state;
    match phase {
        SearchPhase::Connecting => match reply {
            Reply::Done(Ok(_)) => {
                let command = Command::SelectReadOnly { mailbox: input.mailbox.clone() };
                Step::Send(SearchState { phase: SearchPhase::Selecting, input }, command)
            },
            Reply::Done(Err(e)) => fail_search(input, "connect_authenticated", e),
            _ => Step::Finish(Err(stray_reply())),
        },
        SearchPhase::Selecting => match reply {
            Reply::Epoch(Err(e)) => fail_search(input, "select_mailbox_readonly", e),
            Reply::Epoch(Ok(epoch)) => {
                let cursor = match &input.cursor {
                    Some(c) => Some(c.clone()),
                    None => None,
                };
                match cursor {
                    Some(c) => {
                        let taken = resume_cursor_search(cursors, &input, epoch, c, moment.now);
                        let ghost mid = cursors.facts();
                        let ghost witness = taken;
                        match taken {
                            Err(e) => {
                                let step = Step::Finish(Err(e));
                                assert(cursor_resumed(
                                    witness,
                                    old(cursors).facts(),
                                    mid,
                                    input,
                                    epoch,
                                    input.cursor->Some_0@,
                                    moment.now,
                                ));
                                step
                            },
                            Ok(snapshot) => {
                                let step = begin_page(cursors, input, epoch, snapshot, moment);
                                assert(cursor_resumed(
                                    witness,
                                    old(cursors).facts(),
                                    mid,
                                    input,
                                    epoch,
                                    input.cursor->Some_0@,
                                    moment.now,
                                ));
                                step
                            },
                        }
                    },
                    None => match build_search_query_at(&input, moment.today) {
                        Err(e) => Step::Finish(Err(e)),
                        Ok(query) => Step::Send(
                            SearchState { phase: SearchPhase::Searching { epoch }, input },
                            Command::Search { query },
                        ),
                    },
                }
            },
            _ => Step::Finish(Err(stray_reply())),
        },
        SearchPhase::Searching { epoch } => match reply {
            Reply::Uids(Err(e)) => if is_hard_precondition_error(&e) {
                Step::Finish(Err(e))
            } else {
                fail_search(input, "uid_search", e)
            },
            Reply::Uids(Ok(uids)) => match start_new_search(&input, uids) {
                Err(e) => Step::Finish(Err(e)),
                Ok(snapshot) => begin_page(cursors, input, epoch, snapshot, moment),
            },
            _ => Step::Finish(Err(stray_reply())),
        },
        SearchPhase::Fetching { page } => match reply {
            Reply::HeadersAndFlags(fetched) => {
                if !(page.snapshot.offset <= page.position && page.position < page.end && page.end
                    <= page.snapshot.uids_desc.len()) {
                    return Step::Finish(Err(stray_reply()));
                }
                let passed = page.position - page.snapshot.offset;
                if page.issues.len() > passed || page.messages.len() != passed - page.issues.len() {
                    return Step::Finish(Err(stray_reply()));
                }
                let out = build_message_summary(
                    input.account_id.as_str(),
                    input.mailbox.as_str(),
                    page.epoch,
                    page.snapshot.uids_desc[page.position],
                    fetched,
                    page.snapshot.include_snippet,
                    page.snapshot.snippet_max_chars,
                );
                let ghost witness = out;
                let step = advance_page(cursors, input, page, out, moment);
                assert(summarized(
                    witness,
                    input.account_id@,
                    input.mailbox@,
                    page.epoch,
                    page.snapshot.uids_desc@[page.position as int],
                    fetched,
                    page.snapshot.include_snippet,
                    page.snapshot.snippet_max_chars,
                ));
                step
            },
            _ => Step::Finish(Err(stray_reply())),
        },
    }
}

/// Takes a search one step further with the reply to its last command. What
/// holds afterwards is what `search_resume_at` states for some reading of
/// the clock, some day and some token of 36 characters.
pub fn search_resume(cursors: &mut CursorStore, state: SearchState, reply: Reply) -> (step: Step<
    SearchState,
    SearchResultData,
>)
    ensures
        exists|moment: Moment|
            moment.token@.len() == 36 && #[trigger] search_resumed(
                step,
                old(cursors).facts(),
                final(cursors).facts(),
                state,
                reply,
                moment,
            ),
{
    let moment = Moment {
        now: cursors.now(),
        today: crate::dates::today(),
        token: crate::pagination::new_token(),
    };
    let step = search_resume_at(cursors, state, reply, moment);
    assert(search_resumed(
        step,
        old(cursors).facts(),
        cursors.facts(),
        state,
        reply,
        moment,
    ));
    step
}

// ---------------------------------------------------------------------------
// Laws of paging
// ---------------------------------------------------------------------------

/// Every report of a search accounts for each match that it attempted:
/// its summary was returned, or it failed with an issue. A search that goes
/// on fetching holds a page that is sound.
pub proof fn lemma_page_accounts(
    step: Step<SearchState, SearchResultData>,
    before: StoreFacts,
    after: StoreFacts,
    state: SearchState,
    reply: Reply,
    moment: Moment,
)
    requires
        search_resumed(step, before, after, state, reply, moment),
    ensures
        step matches Step::Finish(Ok(r)) ==> r.returned + r.failed == r.attempted,
        step matches Step::Send(s, c) ==> (s.phase matches SearchPhase::Fetching { page }
            ==> page_sound(page)),
{
    if let Step::Send(s, c) = step {
        if let SearchPhase::Fetching { page } = s.phase {
            assert(issue_views(page.issues@).len() == page.issues@.len());
            match state.phase {
                SearchPhase::Fetching { page: last } => {
                    assert(issue_views(last.issues@).len() == last.issues@.len());
                },
                _ => {},
            }
        }
    }
}

/// A page that leaves matches behind says so and names the cursor under
/// which the next page is had; a page that leaves none names no cursor.
pub proof fn lemma_more_matches_leave_cursor(
    r: SearchResultData,
    input: SearchMessagesInput,
    snapshot: SearchSnapshot,
    end: usize,
    messages: Seq<MessageSummary>,
    issues: Seq<ToolIssueView>,
    moment: Moment,
)
    requires
        page_reported(r, input, snapshot, end, messages, issues, moment),
    ensures
        r.has_more == (end < snapshot.uids_desc@.len()),
        r.has_more == (r.next_cursor is Some),
        r.total == snapshot.uids_desc@.len(),
{
}

/// The first page of a search with more matches than it holds leaves a
/// cursor from which the search is taken up where the page ended, with the
/// same matches, hence the same total: at every reading of the clock before
/// the cursor expires, in a store that keeps at least one cursor, for a
/// request of the same account and the same mailbox in the same epoch.
pub proof fn lemma_next_page_continues(
    before: StoreFacts,
    input: SearchMessagesInput,
    epoch: u32,
    snapshot: SearchSnapshot,
    end: usize,
    moment: Moment,
    next_input: SearchMessagesInput,
    taken: AppResult<SearchSnapshot>,
    later_store: StoreFacts,
    later_now: u128,
)
    requires
        crate::pagination::expire_by(
            before.slots,
            deadline(later(before.clock, moment.now), before.ttl_seconds),
        ),
        before.max_entries > 0,
        snapshot.cursor_id_from_request is None,
        end < snapshot.uids_desc@.len(),
        next_input.account_id@ == input.account_id@,
        next_input.mailbox@ == input.mailbox@,
        later(
            later(before.clock, moment.now),
            later_now,
        ) < deadline(later(before.clock, moment.now), before.ttl_seconds),
        cursor_resumed(
            taken,
            cursors_after_page(before, input, epoch, snapshot, end, moment),
            later_store,
            next_input,
            epoch,
            moment.token@,
            later_now,
        ),
    ensures
        taken is Ok,
        taken->Ok_0.uids_desc@ == snapshot.uids_desc@,
        taken->Ok_0.offset == end,
        opt_text(taken->Ok_0.cursor_id_from_request) == Some(moment.token@),
{
    let t = later(before.clock, moment.now);
    let slot = CursorSlot {
        token: moment.token,
        entry: captured(input, epoch, snapshot, end, deadline(t, before.ttl_seconds)),
    };
    crate::pagination::lemma_create_then_get(
        before.slots,
        slot,
        t,
        later(t, later_now),
        before.ttl_seconds,
        before.max_entries as nat,
    );
}

} // verus!
