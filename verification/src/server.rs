//! The server: its settings, its cursor store, and the envelope in which
//! each tool hands out its result.

use crate::accounts::{
    accounts_listed, list_accounts, AccountsResult, MailboxesResult, VerifyResult,
};
use crate::config::ServerConfig;
use crate::copy::CopyResult;
use crate::delete::DeleteResult;
use crate::detail::MessageResult;
use crate::errors::{category_of, code_of, AppError, AppResult, ErrorData};
use crate::flags::FlagsResult;
use crate::models::ToolEnvelope;
use crate::moving::MoveResult;
use crate::pagination::{CursorSlot, CursorStore};
use crate::raw::RawResult;
use crate::report::finalize_tool;
use crate::search::SearchResultData;
use crate::text::{decimal, push_decimal};
use std::time::Instant;
use vstd::prelude::*;

verus! {

/// The server: the settings that every call reads and the cursor store that
/// the searches share.
pub struct MailImapServer {
    pub config: ServerConfig,
    pub cursors: CursorStore,
}

/// `r` is the envelope of the data `data` with the summary `summary`.
pub open spec fn enveloped<T>(r: Result<ToolEnvelope<T>, ErrorData>, summary: Seq<char>, data: T) -> bool {
    r is Ok && r->Ok_0.summary@ == summary && r->Ok_0.data == data
}

/// `r` is what the protocol client is told of the error `e`.
pub open spec fn refused<T>(r: Result<ToolEnvelope<T>, ErrorData>, e: AppError) -> bool {
    r is Err && r->Err_0.category == category_of(e) && r->Err_0.message@ == e.message()
        && r->Err_0.code@ == code_of(e)
}

/// `r` is the answer of a tool with the outcome `outcome`, whose result is
/// summed up as `summary`.
pub open spec fn answered<T>(
    r: Result<ToolEnvelope<T>, ErrorData>,
    outcome: AppResult<T>,
    summary: Seq<char>,
) -> bool {
    match outcome {
        Ok(data) => enveloped(r, summary, data),
        Err(e) => refused(r, e),
    }
}

/// The words `count` and `what`, such as `3 message(s) returned`.
pub open spec fn counted(count: usize, what: Seq<char>) -> Seq<char> {
    decimal(count as nat) + what
}

fn count_words(count: usize, what: &str) -> (s: String)
    ensures
        s@ == counted(count, what@),
{
    let mut s = String::new();
    push_decimal(&mut s, count as u64);
    s.append(what);
    assert(s@ =~= counted(count, what@));
    s
}

fn answer<T>(started: &Instant, outcome: AppResult<T>, summary: String) -> (r: Result<
    ToolEnvelope<T>,
    ErrorData,
>)
    ensures
        answered(r, outcome, summary@),
{
    match outcome {
        Ok(data) => finalize_tool(started, Ok((summary, data))),
        Err(e) => finalize_tool(started, Err(e)),
    }
}

/// What the server tells a client about itself.
pub fn instructions() -> (s: &'static str)
    ensures
        s@
            == "Secure IMAP MCP server. Read operations are enabled by default; write tools require MAIL_IMAP_WRITE_ENABLED=true."@,
{
    "Secure IMAP MCP server. Read operations are enabled by default; write tools require MAIL_IMAP_WRITE_ENABLED=true."
}

impl MailImapServer {
    /// A server with the settings `config` and an empty cursor store, set up
    /// as the settings say.
    pub fn new(config: ServerConfig) -> (server: MailImapServer)
        ensures
            server.config == config,
            server.cursors.slots() == Seq::<CursorSlot>::empty(),
            server.cursors.ttl_seconds() == config.cursor_ttl_seconds,
            server.cursors.max_entries() == config.cursor_max_entries,
    {
        let cursors = CursorStore::new(config.cursor_ttl_seconds, config.cursor_max_entries);
        MailImapServer { config, cursors }
    }

    /// The answer of the list of accounts: the accounts of the settings,
    /// each described without its credential, and their number in words.
    pub fn list_accounts(&self, started: &Instant) -> (r: Result<
        ToolEnvelope<AccountsResult>,
        ErrorData,
    >)
        ensures
            r is Ok,
            r->Ok_0.summary@ == counted(self.config.accounts@.len() as usize, " account(s) configured"@),
            accounts_listed(r->Ok_0.data, self.config),
    {
        let data = list_accounts(&self.config);
        let summary = count_words(self.config.accounts.len(), " account(s) configured");
        finalize_tool(started, Ok((summary, data)))
    }

    /// The answer of the probe of an account.
    pub fn verify_account(started: &Instant, outcome: AppResult<VerifyResult>) -> (r: Result<
        ToolEnvelope<VerifyResult>,
        ErrorData,
    >)
        ensures
            answered(r, outcome, "Account verification succeeded"@),
    {
        answer(started, outcome, "Account verification succeeded".to_owned())
    }

    /// The answer of the list of mailboxes.
    pub fn list_mailboxes(started: &Instant, outcome: AppResult<MailboxesResult>) -> (r: Result<
        ToolEnvelope<MailboxesResult>,
        ErrorData,
    >)
        ensures
            match outcome {
                Ok(data) => enveloped(r, counted(data.mailboxes@.len() as usize, " mailbox(es)"@), data),
                Err(e) => refused(r, e),
            },
    {
        let summary = match &outcome {
            Ok(data) => count_words(data.mailboxes.len(), " mailbox(es)"),
            Err(_) => String::new(),
        };
        answer(started, outcome, summary)
    }

    /// The answer of a search.
    pub fn search_messages(started: &Instant, outcome: AppResult<SearchResultData>) -> (r: Result<
        ToolEnvelope<SearchResultData>,
        ErrorData,
    >)
        ensures
            match outcome {
                Ok(data) => enveloped(
                    r,
                    counted(data.messages@.len() as usize, " message(s) returned"@),
                    data,
                ),
                Err(e) => refused(r, e),
            },
    {
        let summary = match &outcome {
            Ok(data) => count_words(data.messages.len(), " message(s) returned"),
            Err(_) => String::new(),
        };
        answer(started, outcome, summary)
    }

    /// The answer of a message fetch.
    pub fn get_message(started: &Instant, outcome: AppResult<MessageResult>) -> (r: Result<
        ToolEnvelope<MessageResult>,
        ErrorData,
    >)
        ensures
            answered(r, outcome, "Message retrieved"@),
    {
        answer(started, outcome, "Message retrieved".to_owned())
    }

    /// The answer of a source fetch.
    pub fn get_message_raw(started: &Instant, outcome: AppResult<RawResult>) -> (r: Result<
        ToolEnvelope<RawResult>,
        ErrorData,
    >)
        ensures
            answered(r, outcome, "Raw message retrieved"@),
    {
        answer(started, outcome, "Raw message retrieved".to_owned())
    }

    /// The answer of a flag update.
    pub fn update_message_flags(started: &Instant, outcome: AppResult<FlagsResult>) -> (r: Result<
        ToolEnvelope<FlagsResult>,
        ErrorData,
    >)
        ensures
            answered(r, outcome, "Flags updated"@),
    {
        answer(started, outcome, "Flags updated".to_owned())
    }

    /// The answer of a copy.
    pub fn copy_message(started: &Instant, outcome: AppResult<CopyResult>) -> (r: Result<
        ToolEnvelope<CopyResult>,
        ErrorData,
    >)
        ensures
            answered(r, outcome, "Message copied"@),
    {
        answer(started, outcome, "Message copied".to_owned())
    }

    /// The answer of a move.
    pub fn move_message(started: &Instant, outcome: AppResult<MoveResult>) -> (r: Result<
        ToolEnvelope<MoveResult>,
        ErrorData,
    >)
        ensures
            answered(r, outcome, "Message moved"@),
    {
        answer(started, outcome, "Message moved".to_owned())
    }

    /// The answer of a deletion.
    pub fn delete_message(started: &Instant, outcome: AppResult<DeleteResult>) -> (r: Result<
        ToolEnvelope<DeleteResult>,
        ErrorData,
    >)
        ensures
            answered(r, outcome, "Message deleted"@),
    {
        answer(started, outcome, "Message deleted".to_owned())
    }
}

} // verus!
