//! The vocabulary that the tools share: the commands that a tool asks the
//! caller to send, the replies that the caller hands back, and the steps
//! between them.
//!
//! A tool never talks to a server. It is a state machine: `begin` checks the
//! request and names the first command, and `resume` takes the reply to the
//! command last named and names the next one, until the tool finishes with
//! its result.

use crate::errors::{AppError, AppResult};
use crate::message_id::MessageId;
use crate::models::MailboxInfo;
use crate::report::{status_of, Status, ToolIssue, ToolIssueView};
use crate::session::{fails, Capability, ErrorKind};
use vstd::prelude::*;

verus! {

/// A command for the caller to send on the current session. `Connect` opens
/// a session for an account, which from then on is the current one.
#[derive(Debug)]
pub enum Command {
    Connect { account_id: String },
    Noop,
    Capabilities,
    ListMailboxes,
    SelectReadOnly { mailbox: String },
    SelectReadWrite { mailbox: String },
    Search { query: String },
    FetchRaw { uid: u32 },
    FetchHeadersAndFlags { uid: u32 },
    FetchFlags { uid: u32 },
    Store { uid: u32, query: String },
    Copy { uid: u32, mailbox: String },
    Move { uid: u32, mailbox: String },
    Expunge { uid: u32 },
    Append { mailbox: String, content: Vec<u8> },
    /// Not a command of the mail protocol: extract the text of the PDF
    /// document `content`.
    ExtractPdfText { content: Vec<u8> },
}

/// What a command yielded, by the kind of its value.
#[derive(Debug)]
pub enum Reply {
    /// Of `Connect`, `Noop`, `Store`, `Copy`, `Move`, `Expunge`, `Append`.
    Done(AppResult<()>),
    /// Of `SelectReadOnly` and `SelectReadWrite`: the epoch of the mailbox.
    Epoch(AppResult<u32>),
    /// Of `Capabilities`.
    Capabilities(AppResult<Vec<Capability>>),
    /// Of `ListMailboxes`.
    Mailboxes(AppResult<Vec<MailboxInfo>>),
    /// Of `Search`: the matching numbers, newest first.
    Uids(AppResult<Vec<u32>>),
    /// Of `FetchRaw`: the message source.
    Raw(AppResult<Vec<u8>>),
    /// Of `FetchHeadersAndFlags`: header bytes and printed flags.
    HeadersAndFlags(AppResult<(Vec<u8>, Vec<String>)>),
    /// Of `FetchFlags`: printed flags.
    Flags(AppResult<Vec<String>>),
    /// Of `ExtractPdfText`: the text, if it could be extracted.
    Text(Option<String>),
}

/// What a tool does next: send a command and wait in a state for the reply,
/// or finish.
#[derive(Debug)]
pub enum Step<S, R> {
    Send(S, Command),
    Finish(AppResult<R>),
}

/// The commands that change a mailbox.
pub open spec fn mutating(c: Command) -> bool {
    c is Store || c is Copy || c is Move || c is Expunge || c is Append
}

/// `c` asks for a session for the account `account_id`.
pub open spec fn is_connect(c: Command, account_id: Seq<char>) -> bool {
    c matches Command::Connect { account_id: a } && a@ == account_id
}

/// `c` selects `mailbox` for reading only.
pub open spec fn is_select_readonly(c: Command, mailbox: Seq<char>) -> bool {
    c matches Command::SelectReadOnly { mailbox: m } && m@ == mailbox
}

/// `c` selects `mailbox` for reading and writing.
pub open spec fn is_select_readwrite(c: Command, mailbox: Seq<char>) -> bool {
    c matches Command::SelectReadWrite { mailbox: m } && m@ == mailbox
}

/// `c` searches with the expression `query`.
pub open spec fn is_search(c: Command, query: Seq<char>) -> bool {
    c matches Command::Search { query: q } && q@ == query
}

/// `c` stores flags on the message `uid` as `query` says.
pub open spec fn is_store(c: Command, uid: u32, query: Seq<char>) -> bool {
    c matches Command::Store { uid: u, query: q } && u == uid && q@ == query
}

/// `c` copies the message `uid` to `mailbox`.
pub open spec fn is_copy(c: Command, uid: u32, mailbox: Seq<char>) -> bool {
    c matches Command::Copy { uid: u, mailbox: m } && u == uid && m@ == mailbox
}

/// `c` moves the message `uid` to `mailbox`.
pub open spec fn is_move_to(c: Command, uid: u32, mailbox: Seq<char>) -> bool {
    c matches Command::Move { uid: u, mailbox: m } && u == uid && m@ == mailbox
}

/// `c` appends `content` to `mailbox`.
pub open spec fn is_append(c: Command, mailbox: Seq<char>, content: Seq<u8>) -> bool {
    c matches Command::Append { mailbox: m, content: b } && m@ == mailbox && b@ == content
}

/// `c` asks for the text of the PDF document `content`.
pub open spec fn is_extract(c: Command, content: Seq<u8>) -> bool {
    c matches Command::ExtractPdfText { content: b } && b@ == content
}

/// `r` is an error that says that the reply does not answer the command.
pub open spec fn stray<T>(r: AppResult<T>) -> bool {
    fails(r, ErrorKind::Internal, unexpected_reply())
}

/// The message of the error for a reply of a kind that the command last
/// named cannot yield.
pub open spec fn unexpected_reply() -> Seq<char> {
    "reply does not answer the command that was sent"@
}

/// The error for a reply of a kind that the command last named cannot yield.
pub fn stray_reply() -> (e: AppError)
    ensures
        e is Internal,
        e.message() == unexpected_reply(),
{
    AppError::Internal("reply does not answer the command that was sent".to_owned())
}

/// The message of the conflict that an epoch raises which is not the one of
/// the identity.
pub open spec fn stale_identity() -> Seq<char> {
    "message uidvalidity no longer matches mailbox"@
}

/// What the check of a freshly selected mailbox against an identity yields:
/// the error of the selection, if it failed; a `Conflict`, if the mailbox is
/// in another epoch than the identity; else success.
pub open spec fn epoch_checked(r: AppResult<()>, msg_id: MessageId, selected: AppResult<u32>) -> bool {
    match selected {
        Err(e) => r == Err::<(), AppError>(e),
        Ok(epoch) => if epoch == msg_id.uidvalidity {
            r is Ok
        } else {
            fails(r, ErrorKind::Conflict, stale_identity())
        },
    }
}

/// Checks the epoch of a freshly selected mailbox against an identity.
pub fn ensure_uidvalidity_matches(msg_id: &MessageId, selected: AppResult<u32>) -> (r: AppResult<()>)
    ensures
        epoch_checked(r, *msg_id, selected),
{
    match selected {
        Err(e) => Err(e),
        Ok(epoch) => if epoch == msg_id.uidvalidity {
            Ok(())
        } else {
            Err(AppError::Conflict("message uidvalidity no longer matches mailbox".to_owned()))
        },
    }
}

/// The issues of `issues`, as mathematical values.
pub open spec fn issue_views(issues: Seq<ToolIssue>) -> Seq<ToolIssueView> {
    Seq::new(issues.len(), |i: int| issues[i].deep_view())
}

/// Adds an issue to a list of issues.
pub fn record(issues: &mut Vec<ToolIssue>, issue: ToolIssue)
    ensures
        issue_views(final(issues)@) == issue_views(old(issues)@).push(issue.deep_view()),
{
    issues.push(issue);
    assert(issue_views(final(issues)@) =~= issue_views(old(issues)@).push(issue.deep_view()));
}

/// A list with one issue.
pub fn single(issue: ToolIssue) -> (issues: Vec<ToolIssue>)
    ensures
        issue_views(issues@) == seq![issue.deep_view()],
{
    let mut issues: Vec<ToolIssue> = Vec::new();
    issues.push(issue);
    assert(issue_views(issues@) =~= seq![issue.deep_view()]);
    issues
}

/// The status that a ledger of steps gives: `Okay` without issues, else
/// `Partial` if a step succeeded, else `Failed`.
pub open spec fn ledger_status(issues: Seq<ToolIssueView>, steps_succeeded: usize) -> Status {
    status_of(issues.len() == 0, steps_succeeded > 0)
}

} // verus!
