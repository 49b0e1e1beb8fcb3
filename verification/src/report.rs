//! What a tool reports besides its data: the status of the call, the issues
//! met on the way, and the step that is suggested next.

use crate::errors::{code_of, retryable_of, AppError, AppResult, ErrorData};
use crate::models::{MailboxInfo, MessageSummary, Meta, ToolEnvelope};
use crate::text::{eq_ignore_ascii_case, str_eq, str_eq_ignore_ascii_case};
use std::time::Duration;
use std::time::Instant;
use vstd::prelude::*;

verus! {

/// `Duration::as_millis` gives the duration in whole milliseconds; nothing is
/// known of it.
pub assume_specification[ Duration::as_millis ](duration: &Duration) -> u128;

/// Outcome of a tool call: everything worked, some of it did, or nothing
/// usable came of it.
#[derive(Debug, Clone, Copy, PartialEq, Eq, Structural)]
pub enum Status {
    Okay,
    Partial,
    Failed,
}

/// The status of a call: `Ok` without issues, else `Partial` if something
/// of value was produced, else `Failed`.
pub open spec fn status_of(no_issues: bool, has_data: bool) -> Status {
    if no_issues {
        Status::Okay
    } else if has_data {
        Status::Partial
    } else {
        Status::Failed
    }
}

impl Status {
    /// The word for the status.
    pub open spec fn word(self) -> Seq<char> {
        match self {
            Status::Okay => "ok"@,
            Status::Partial => "partial"@,
            Status::Failed => "failed"@,
        }
    }

    /// The word for the status: `ok`, `partial` or `failed`.
    pub fn as_str(&self) -> (s: &'static str)
        ensures
            s@ == self.word(),
    {
        match self {
            Status::Okay => "ok",
            Status::Partial => "partial",
            Status::Failed => "failed",
        }
    }
}

/// The status of a call from whether it met no issue and whether it
/// produced anything of value.
pub fn status_from_counts(no_issues: bool, has_data: bool) -> (s: Status)
    ensures
        s == status_of(no_issues, has_data),
{
    if no_issues {
        Status::Okay
    } else if has_data {
        Status::Partial
    } else {
        Status::Failed
    }
}

/// One failed step of a call.
#[derive(Debug)]
pub struct ToolIssue {
    /// Machine-readable class of the failure.
    pub code: String,
    /// The step that failed.
    pub stage: String,
    /// The failure in words.
    pub message: String,
    /// Whether the caller may reasonably retry.
    pub retryable: bool,
    /// Number of the message concerned, if one was.
    pub uid: Option<u32>,
    /// Identity of the message concerned, if one was.
    pub message_id: Option<String>,
}

/// Mathematical value of a `ToolIssue`.
pub struct ToolIssueView {
    pub code: Seq<char>,
    pub stage: Seq<char>,
    pub message: Seq<char>,
    pub retryable: bool,
    pub uid: Option<u32>,
    pub message_id: Option<Seq<char>>,
}

impl DeepView for ToolIssue {
    type V = ToolIssueView;

    open spec fn deep_view(&self) -> ToolIssueView {
        ToolIssueView {
            code: self.code@,
            stage: self.stage@,
            message: self.message@,
            retryable: self.retryable,
            uid: self.uid,
            message_id: match self.message_id {
                Some(m) => Some(m@),
                None => None,
            },
        }
    }
}

/// The issue that the failure `error` of the step `stage` gives rise to.
/// Code and retryability follow from the class of the error alone.
pub open spec fn issue_of(
    stage: Seq<char>,
    error: AppError,
    uid: Option<u32>,
    message_id: Option<Seq<char>>,
) -> ToolIssueView {
    ToolIssueView {
        code: code_of(error),
        stage,
        message: error.rendered(),
        retryable: retryable_of(error),
        uid,
        message_id,
    }
}

impl ToolIssue {
    /// The issue for the failure `error` of the step `stage`.
    pub fn from_error(stage: &str, error: &AppError) -> (issue: ToolIssue)
        ensures
            issue.deep_view() == issue_of(stage@, *error, None, None),
    {
        ToolIssue {
            code: error.code().to_owned(),
            stage: stage.to_owned(),
            message: error.to_string(),
            retryable: error.retryable(),
            uid: None,
            message_id: None,
        }
    }

    /// The issue, said to concern the message numbered `uid`.
    pub fn with_uid(self, uid: u32) -> (issue: ToolIssue)
        ensures
            issue.deep_view() == (ToolIssueView { uid: Some(uid), ..self.deep_view() }),
    {
        let mut issue = self;
        issue.uid = Some(uid);
        issue
    }

    /// The issue, said to concern the message with the identity
    /// `message_id`.
    pub fn with_message_id(self, message_id: &str) -> (issue: ToolIssue)
        ensures
            issue.deep_view() == (ToolIssueView {
                message_id: Some(message_id@),
                ..self.deep_view()
            }),
    {
        let mut issue = self;
        issue.message_id = Some(message_id.to_owned());
        issue
    }
}

/// The issue for the failure `error` of the step `stage`, with the message
/// it concerns.
pub fn issue_about(stage: &str, error: &AppError, uid: Option<u32>, message_id: Option<&str>) -> (issue:
    ToolIssue)
    ensures
        issue.deep_view() == issue_of(
            stage@,
            *error,
            uid,
            match message_id {
                Some(m) => Some(m@),
                None => None,
            },
        ),
{
    let issue = ToolIssue::from_error(stage, error);
    let issue = match uid {
        Some(u) => issue.with_uid(u),
        None => issue,
    };
    match message_id {
        Some(m) => issue.with_message_id(m),
        None => issue,
    }
}

/// The status of a call from its issues and whether it produced anything of
/// value.
pub fn status_from_issue_and_counts(issues: &Vec<ToolIssue>, has_data: bool) -> (s: Status)
    ensures
        s == status_of(issues@.len() == 0, has_data),
{
    status_from_counts(issues.len() == 0, has_data)
}

/// The machine-readable code of an error.
pub fn app_error_code(error: &AppError) -> (c: &'static str)
    ensures
        c@ == code_of(*error),
{
    error.code()
}

/// Whether an error ends the call at once, with no ledger: bad input and
/// conflicts do.
pub fn is_hard_precondition_error(error: &AppError) -> (r: bool)
    ensures
        r == (error is InvalidInput || error is Conflict),
{
    match error {
        AppError::InvalidInput(_) => true,
        AppError::Conflict(_) => true,
        _ => false,
    }
}

/// Whether an issue is logged as an error, and not as a warning: every issue
/// of a call that has failed, and every internal failure or breach of a
/// deadline.
pub open spec fn logs_as_error(status: Status, code: Seq<char>) -> bool {
    status == Status::Failed || code == "internal"@ || code == "timeout"@
}

/// Whether `issue` of a call that ended with `status` is logged as an error.
pub fn issue_is_error(status: Status, issue: &ToolIssue) -> (r: bool)
    ensures
        r == logs_as_error(status, issue.code@),
{
    match status {
        Status::Failed => true,
        _ => str_eq(issue.code.as_str(), "internal") || str_eq(issue.code.as_str(), "timeout"),
    }
}

/// The lesser of `ms` and the largest `u64`.
pub open spec fn clamped(ms: u128) -> u64 {
    if ms > u64::MAX {
        u64::MAX
    } else {
        ms as u64
    }
}

/// A number of milliseconds as a `u64`, the largest one if it does not fit.
pub fn clamp_millis(ms: u128) -> (r: u64)
    ensures
        r == clamped(ms),
{
    if ms > u64::MAX as u128 {
        u64::MAX
    } else {
        ms as u64
    }
}

/// Milliseconds that have passed since `started`.
///
/// The time that has passed is whatever the clock says, so nothing is stated
/// of the result. How a reading is cut down to a `u64` is stated by
/// `clamp_millis`, for every reading.
pub fn duration_ms(started: &Instant) -> u64 {
    let elapsed = started.elapsed();
    clamp_millis(elapsed.as_millis())
}

// ---------------------------------------------------------------------------
// The step that is suggested next
// ---------------------------------------------------------------------------

/// Value of one argument of a suggested call.
#[derive(Debug)]
pub enum ArgValue {
    Text(String),
    Number(usize),
    Flag(bool),
}

/// Mathematical value of an `ArgValue`.
pub enum ArgValueView {
    Text(Seq<char>),
    Number(usize),
    Flag(bool),
}

impl DeepView for ArgValue {
    type V = ArgValueView;

    open spec fn deep_view(&self) -> ArgValueView {
        match self {
            ArgValue::Text(t) => ArgValueView::Text(t@),
            ArgValue::Number(n) => ArgValueView::Number(*n),
            ArgValue::Flag(b) => ArgValueView::Flag(*b),
        }
    }
}

/// One named argument of a suggested call.
#[derive(Debug)]
pub struct Argument {
    pub name: String,
    pub value: ArgValue,
}

impl DeepView for Argument {
    type V = (Seq<char>, ArgValueView);

    open spec fn deep_view(&self) -> (Seq<char>, ArgValueView) {
        (self.name@, self.value.deep_view())
    }
}

/// A call that the client is advised to make next.
#[derive(Debug)]
pub struct NextAction {
    /// The advice in words.
    pub instruction: String,
    /// The tool to call.
    pub tool: String,
    /// The arguments to call it with.
    pub arguments: Vec<Argument>,
}

/// Mathematical value of a `NextAction`.
pub struct NextActionView {
    pub instruction: Seq<char>,
    pub tool: Seq<char>,
    pub arguments: Seq<(Seq<char>, ArgValueView)>,
}

impl DeepView for NextAction {
    type V = NextActionView;

    open spec fn deep_view(&self) -> NextActionView {
        NextActionView {
            instruction: self.instruction@,
            tool: self.tool@,
            arguments: self.arguments.deep_view(),
        }
    }
}

fn text_arg(name: &str, value: &str) -> (a: Argument)
    ensures
        a.deep_view() == (name@, ArgValueView::Text(value@)),
{
    Argument { name: name.to_owned(), value: ArgValue::Text(value.to_owned()) }
}

fn number_arg(name: &str, value: usize) -> (a: Argument)
    ensures
        a.deep_view() == (name@, ArgValueView::Number(value)),
{
    Argument { name: name.to_owned(), value: ArgValue::Number(value) }
}

fn flag_arg(name: &str, value: bool) -> (a: Argument)
    ensures
        a.deep_view() == (name@, ArgValueView::Flag(value)),
{
    Argument { name: name.to_owned(), value: ArgValue::Flag(value) }
}

/// The advice `instruction` to call `tool` with `arguments`.
pub fn next_action(instruction: &str, tool: &str, arguments: Vec<Argument>) -> (a: NextAction)
    ensures
        a.deep_view() == (NextActionView {
            instruction: instruction@,
            tool: tool@,
            arguments: arguments.deep_view(),
        }),
{
    NextAction { instruction: instruction.to_owned(), tool: tool.to_owned(), arguments }
}

/// The advice to verify the account again.
pub open spec fn retry_verify(account_id: Seq<char>) -> NextActionView {
    NextActionView {
        instruction: "Re-verify account connectivity before proceeding."@,
        tool: "imap_verify_account"@,
        arguments: seq![("account_id"@, ArgValueView::Text(account_id))],
    }
}

/// The advice to list the mailboxes of the account.
pub open spec fn list_mailboxes_next(account_id: Seq<char>) -> NextActionView {
    NextActionView {
        instruction: "List mailboxes to choose a mailbox for message search."@,
        tool: "imap_list_mailboxes"@,
        arguments: seq![("account_id"@, ArgValueView::Text(account_id))],
    }
}

/// The advice to search `mailbox`.
pub open spec fn search_mailbox_next(account_id: Seq<char>, mailbox: Seq<char>) -> NextActionView {
    NextActionView {
        instruction: "Search for messages in the selected mailbox."@,
        tool: "imap_search_messages"@,
        arguments: seq![
            ("account_id"@, ArgValueView::Text(account_id)),
            ("mailbox"@, ArgValueView::Text(mailbox)),
            ("limit"@, ArgValueView::Number(10)),
            ("include_snippet"@, ArgValueView::Flag(false)),
        ],
    }
}

/// Advises to verify the account again.
pub fn next_action_retry_verify(account_id: &str) -> (a: NextAction)
    ensures
        a.deep_view() == retry_verify(account_id@),
{
    let mut args: Vec<Argument> = Vec::new();
    args.push(text_arg("account_id", account_id));
    let a = next_action("Re-verify account connectivity before proceeding.", "imap_verify_account", args);
    assert(a.deep_view().arguments =~= retry_verify(account_id@).arguments);
    a
}

/// Advises to list the mailboxes of the account.
pub fn next_action_list_mailboxes(account_id: &str) -> (a: NextAction)
    ensures
        a.deep_view() == list_mailboxes_next(account_id@),
{
    let mut args: Vec<Argument> = Vec::new();
    args.push(text_arg("account_id", account_id));
    let a = next_action(
        "List mailboxes to choose a mailbox for message search.",
        "imap_list_mailboxes",
        args,
    );
    assert(a.deep_view().arguments =~= list_mailboxes_next(account_id@).arguments);
    a
}

/// Advises to search `mailbox`.
pub fn next_action_search_mailbox(account_id: &str, mailbox: &str) -> (a: NextAction)
    ensures
        a.deep_view() == search_mailbox_next(account_id@, mailbox@),
{
    let mut args: Vec<Argument> = Vec::new();
    args.push(text_arg("account_id", account_id));
    args.push(text_arg("mailbox", mailbox));
    args.push(number_arg("limit", 10));
    args.push(flag_arg("include_snippet", false));
    let a = next_action("Search for messages in the selected mailbox.", "imap_search_messages", args);
    assert(a.deep_view().arguments =~= search_mailbox_next(account_id@, mailbox@).arguments);
    a
}

/// Index of the first mailbox named `INBOX` in any letter case, or
/// `mailboxes.len()`.
pub open spec fn inbox_position(mailboxes: Seq<MailboxInfo>) -> int
    decreases mailboxes.len(),
{
    if mailboxes.len() == 0 || eq_ignore_ascii_case(mailboxes[0].name@, "INBOX"@) {
        0
    } else {
        1 + inbox_position(mailboxes.drop_first())
    }
}

/// The mailbox to search first: the first one named `INBOX` in any letter
/// case, else the first one, if there is any.
pub open spec fn preferred_mailbox(mailboxes: Seq<MailboxInfo>) -> Option<Seq<char>> {
    if mailboxes.len() == 0 {
        None
    } else if inbox_position(mailboxes) < mailboxes.len() {
        Some(mailboxes[inbox_position(mailboxes)].name@)
    } else {
        Some(mailboxes[0].name@)
    }
}

pub proof fn lemma_inbox_position_unique(mailboxes: Seq<MailboxInfo>, k: int)
    requires
        0 <= k <= mailboxes.len(),
        k < mailboxes.len() ==> eq_ignore_ascii_case(mailboxes[k].name@, "INBOX"@),
        forall|i: int| 0 <= i < k ==> !eq_ignore_ascii_case((#[trigger] mailboxes[i]).name@, "INBOX"@),
    ensures
        inbox_position(mailboxes) == k,
    decreases mailboxes.len(),
{
    if k > 0 {
        let t = mailboxes.drop_first();
        assert(!eq_ignore_ascii_case(mailboxes[0].name@, "INBOX"@));
        assert forall|i: int| 0 <= i < k - 1 implies !eq_ignore_ascii_case(
            (#[trigger] t[i]).name@,
            "INBOX"@,
        ) by {
            assert(t[i] == mailboxes[i + 1]);
        }
        lemma_inbox_position_unique(t, k - 1);
    }
}

/// The name of the mailbox to search first.
pub fn preferred_mailbox_name(mailboxes: &Vec<MailboxInfo>) -> (r: Option<String>)
    ensures
        match preferred_mailbox(mailboxes@) {
            Some(name) => r is Some && r->Some_0@ == name,
            None => r is None,
        },
{
    if mailboxes.len() == 0 {
        return None;
    }
    let mut i: usize = 0;
    while i < mailboxes.len() && !str_eq_ignore_ascii_case(mailboxes[i].name.as_str(), "INBOX")
        invariant
            i <= mailboxes.len(),
            forall|j: int|
                0 <= j < i ==> !eq_ignore_ascii_case((#[trigger] mailboxes@[j]).name@, "INBOX"@),
        decreases mailboxes.len() - i,
    {
        i += 1;
    }
    proof {
        lemma_inbox_position_unique(mailboxes@, i as int);
    }
    if i < mailboxes.len() {
        Some(mailboxes[i].name.clone())
    } else {
        Some(mailboxes[0].name.clone())
    }
}

/// The advice that follows a search page.
///
/// With a continuation token: to fetch the next page. Else after a failed
/// call: to verify the account. Else with a message on the page: to open the
/// first one. Else: to search again with broader criteria.
pub open spec fn search_result_next(
    status: Status,
    account_id: Seq<char>,
    mailbox: Seq<char>,
    limit: usize,
    cursor: Option<Seq<char>>,
    first_message_id: Option<Seq<char>>,
) -> NextActionView {
    match cursor {
        Some(c) => NextActionView {
            instruction: "Continue pagination to retrieve more messages."@,
            tool: "imap_search_messages"@,
            arguments: seq![
                ("account_id"@, ArgValueView::Text(account_id)),
                ("mailbox"@, ArgValueView::Text(mailbox)),
                ("cursor"@, ArgValueView::Text(c)),
                ("limit"@, ArgValueView::Number(limit)),
                ("include_snippet"@, ArgValueView::Flag(false)),
            ],
        },
        None => if status == Status::Failed {
            retry_verify(account_id)
        } else {
            match first_message_id {
                Some(m) => NextActionView {
                    instruction: "Open a message to inspect full content and headers."@,
                    tool: "imap_get_message"@,
                    arguments: seq![
                        ("account_id"@, ArgValueView::Text(account_id)),
                        ("message_id"@, ArgValueView::Text(m)),
                    ],
                },
                None => NextActionView {
                    instruction: "Retry search with broader criteria."@,
                    tool: "imap_search_messages"@,
                    arguments: seq![
                        ("account_id"@, ArgValueView::Text(account_id)),
                        ("mailbox"@, ArgValueView::Text(mailbox)),
                        ("limit"@, ArgValueView::Number(limit)),
                        ("include_snippet"@, ArgValueView::Flag(false)),
                    ],
                },
            }
        },
    }
}

/// The identity of the first message of a page, if the page holds any.
pub open spec fn first_message_id(messages: Seq<MessageSummary>) -> Option<Seq<char>> {
    if messages.len() > 0 {
        Some(messages[0].message_id@)
    } else {
        None
    }
}

/// Advises what to do after a search page.
pub fn next_action_for_search_result(
    status: Status,
    account_id: &str,
    mailbox: &str,
    limit: usize,
    cursor: Option<&str>,
    messages: &Vec<MessageSummary>,
) -> (a: NextAction)
    ensures
        a.deep_view() == search_result_next(
            status,
            account_id@,
            mailbox@,
            limit,
            match cursor {
                Some(c) => Some(c@),
                None => None,
            },
            first_message_id(messages@),
        ),
{
    let ghost want = search_result_next(
        status,
        account_id@,
        mailbox@,
        limit,
        match cursor {
            Some(c) => Some(c@),
            None => None,
        },
        first_message_id(messages@),
    );
    if let Some(c) = cursor {
        let mut args: Vec<Argument> = Vec::new();
        args.push(text_arg("account_id", account_id));
        args.push(text_arg("mailbox", mailbox));
        args.push(text_arg("cursor", c));
        args.push(number_arg("limit", limit));
        args.push(flag_arg("include_snippet", false));
        let a = next_action(
            "Continue pagination to retrieve more messages.",
            "imap_search_messages",
            args,
        );
        assert(a.deep_view().arguments =~= want.arguments);
        return a;
    }
    if status == Status::Failed {
        return next_action_retry_verify(account_id);
    }
    if messages.len() > 0 {
        let mut args: Vec<Argument> = Vec::new();
        args.push(text_arg("account_id", account_id));
        args.push(text_arg("message_id", messages[0].message_id.as_str()));
        let a = next_action(
            "Open a message to inspect full content and headers.",
            "imap_get_message",
            args,
        );
        assert(a.deep_view().arguments =~= want.arguments);
        return a;
    }
    let mut args: Vec<Argument> = Vec::new();
    args.push(text_arg("account_id", account_id));
    args.push(text_arg("mailbox", mailbox));
    args.push(number_arg("limit", limit));
    args.push(flag_arg("include_snippet", false));
    let a = next_action("Retry search with broader criteria.", "imap_search_messages", args);
    assert(a.deep_view().arguments =~= want.arguments);
    a
}

/// Wraps the outcome of a tool: data go into the envelope with the timing of
/// the call, an error becomes what the protocol client is told of it.
pub fn finalize_tool<T>(started: &Instant, result: AppResult<(String, T)>) -> (r: Result<
    ToolEnvelope<T>,
    ErrorData,
>)
    ensures
        match result {
            Ok((summary, data)) => r is Ok && r->Ok_0.summary == summary && r->Ok_0.data == data,
            Err(e) => r is Err && r->Err_0.category == crate::errors::category_of(e)
                && r->Err_0.message@ == e.message() && r->Err_0.code@ == code_of(e),
        },
{
    match result {
        Ok((summary, data)) => Ok(ToolEnvelope { summary, data, meta: Meta::now(duration_ms(started)) }),
        Err(e) => Err(e.to_error_data()),
    }
}

} // verus!
