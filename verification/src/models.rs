//! The values that cross the tool surface: what each tool takes and what
//! it gives.

use vstd::prelude::*;

verus! {

/// `Utc::now` reads the wall clock, and `to_rfc3339_opts` writes it as an
/// RFC 3339 timestamp with milliseconds and a `Z`. Nothing is stated of the
/// text: it differs from call to call.
#[verifier::external_body]
fn utc_now_rfc3339() -> String {
    chrono::Utc::now().to_rfc3339_opts(chrono::SecondsFormat::Millis, true)
}

/// Timing of one tool call.
#[derive(Debug)]
pub struct Meta {
    /// Wall-clock time of the answer, as an RFC 3339 timestamp.
    pub now_utc: String,
    /// How long the call ran, in milliseconds.
    pub duration_ms: u64,
}

impl Meta {
    /// Timing for a call that ran `duration_ms` milliseconds and is answered
    /// now.
    pub fn now(duration_ms: u64) -> (m: Meta)
        ensures
            m.duration_ms == duration_ms,
    {
        Meta { now_utc: utc_now_rfc3339(), duration_ms }
    }
}

/// What every tool answers: a summary for people, the data and the timing.
#[derive(Debug)]
pub struct ToolEnvelope<T> {
    pub summary: String,
    pub data: T,
    pub meta: Meta,
}

/// An account without its credential.
#[derive(Debug)]
pub struct AccountInfo {
    pub account_id: String,
    pub host: String,
    pub port: u16,
    pub secure: bool,
}

/// A mailbox and its hierarchy delimiter.
#[derive(Debug)]
pub struct MailboxInfo {
    pub name: String,
    pub delimiter: Option<String>,
}

/// One message of a search page.
#[derive(Debug)]
pub struct MessageSummary {
    pub message_id: String,
    pub message_uri: String,
    pub message_raw_uri: String,
    pub mailbox: String,
    pub uidvalidity: u32,
    pub uid: u32,
    pub date: Option<String>,
    pub from: Option<String>,
    pub subject: Option<String>,
    pub flags: Option<Vec<String>>,
    pub snippet: Option<String>,
}

/// One attachment of a message.
#[derive(Debug)]
pub struct AttachmentInfo {
    pub filename: Option<String>,
    pub content_type: String,
    pub size_bytes: usize,
    pub part_id: String,
    pub extracted_text: Option<String>,
}

/// A message in full.
#[derive(Debug)]
pub struct MessageDetail {
    pub message_id: String,
    pub message_uri: String,
    pub message_raw_uri: String,
    pub mailbox: String,
    pub uidvalidity: u32,
    pub uid: u32,
    pub date: Option<String>,
    pub from: Option<String>,
    pub to: Option<String>,
    pub cc: Option<String>,
    pub subject: Option<String>,
    pub flags: Option<Vec<String>>,
    pub headers: Option<Vec<(String, String)>>,
    pub body_text: Option<String>,
    pub body_html: Option<String>,
    pub attachments: Option<Vec<AttachmentInfo>>,
}

/// Input of the tools that take an account alone.
#[derive(Debug)]
pub struct AccountOnlyInput {
    pub account_id: String,
}

/// Input of the message search.
#[derive(Debug)]
pub struct SearchMessagesInput {
    pub account_id: String,
    pub mailbox: String,
    /// Token of a search to continue.
    pub cursor: Option<String>,
    /// Free text.
    pub query: Option<String>,
    pub from: Option<String>,
    pub to: Option<String>,
    pub subject: Option<String>,
    pub unread_only: Option<bool>,
    pub last_days: Option<u16>,
    /// First day, as `YYYY-MM-DD`.
    pub start_date: Option<String>,
    /// Last day, as `YYYY-MM-DD`.
    pub end_date: Option<String>,
    /// Messages per page, 1 to 50.
    pub limit: usize,
    pub include_snippet: bool,
    /// Longest snippet in characters, 50 to 500.
    pub snippet_max_chars: Option<usize>,
}

/// Input of the message fetch.
#[derive(Debug)]
pub struct GetMessageInput {
    pub account_id: String,
    pub message_id: String,
    /// Longest body in characters, 100 to 20000.
    pub body_max_chars: usize,
    pub include_headers: bool,
    pub include_all_headers: bool,
    pub include_html: bool,
    pub extract_attachment_text: bool,
    /// Longest attachment text in characters, 100 to 50000.
    pub attachment_text_max_chars: Option<usize>,
}

/// Input of the raw message fetch.
#[derive(Debug)]
pub struct GetMessageRawInput {
    pub account_id: String,
    pub message_id: String,
    /// Largest message in bytes, 1024 to 1000000.
    pub max_bytes: usize,
}

/// Input of the flag update.
#[derive(Debug)]
pub struct UpdateMessageFlagsInput {
    pub account_id: String,
    pub message_id: String,
    pub add_flags: Option<Vec<String>>,
    pub remove_flags: Option<Vec<String>>,
}

/// Input of the message copy.
#[derive(Debug)]
pub struct CopyMessageInput {
    pub account_id: String,
    pub message_id: String,
    pub destination_mailbox: String,
    /// Account to copy to; the source account if absent.
    pub destination_account_id: Option<String>,
}

/// Input of the message move.
#[derive(Debug)]
pub struct MoveMessageInput {
    pub account_id: String,
    pub message_id: String,
    pub destination_mailbox: String,
}

/// Input of the message deletion.
#[derive(Debug)]
pub struct DeleteMessageInput {
    pub account_id: String,
    pub message_id: String,
    /// Must be true for the deletion to run.
    pub confirm: bool,
}

/// The account that a request names when it names none.
pub fn default_account_id() -> (s: String)
    ensures
        s@ == "default"@,
{
    "default".to_owned()
}

/// The value of a flag that is on unless the request says otherwise.
pub fn default_true() -> (b: bool)
    ensures
        b,
{
    true
}

/// Messages per search page when the request names no number.
pub fn default_limit() -> (n: usize)
    ensures
        n == 10,
{
    10
}

/// Longest body when the request names no length.
pub fn default_body_max_chars() -> (n: usize)
    ensures
        n == 2000,
{
    2_000
}

/// Largest raw message when the request names no size.
pub fn default_raw_max_bytes() -> (n: usize)
    ensures
        n == 200_000,
{
    200_000
}

} // verus!
