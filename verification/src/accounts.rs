//! The tools that look at an account as a whole: the list of accounts, the
//! probe of one account, and the list of its mailboxes.

use crate::config::{
    account_position, has_account, unknown_account_message, AccountConfig, ServerConfig,
};
use crate::engine::{
    is_connect, issue_views, record, single, stray, stray_reply, Command, Reply, Step,
};
use crate::models::{AccountInfo, AccountOnlyInput, MailboxInfo};
use crate::report::{
    duration_ms, issue_about, issue_of, list_mailboxes_next, next_action_list_mailboxes,
    next_action_retry_verify, next_action_search_mailbox, preferred_mailbox, preferred_mailbox_name,
    retry_verify, search_mailbox_next, status_of, NextAction, NextActionView, Status, ToolIssue,
    ToolIssueView,
};
use crate::session::{capability_text, capability_to_string, fails, Capability, ErrorKind};
use crate::text::lex_lt;
use crate::validate::{account_id_fault, validate_account_id};
use std::time::Instant;
use vstd::prelude::*;

verus! {

/// The largest number of mailboxes that are listed.
pub const MAX_MAILBOXES: usize = 200;

/// The largest number of capabilities that are listed.
pub const MAX_CAPABILITIES: usize = 256;

/// The account `account` without its credential.
pub open spec fn describes(info: AccountInfo, account: AccountConfig) -> bool {
    &&& info.account_id@ == account.account_id@
    &&& info.host@ == account.host@
    &&& info.port == account.port
    &&& info.secure == account.secure
}

/// An account without its credential.
pub fn account_info(account: &AccountConfig) -> (info: AccountInfo)
    ensures
        describes(info, *account),
{
    AccountInfo {
        account_id: account.account_id.clone(),
        host: account.host.clone(),
        port: account.port,
        secure: account.secure,
    }
}

// ---------------------------------------------------------------------------
// The list of accounts
// ---------------------------------------------------------------------------

/// What the list of accounts reports.
#[derive(Debug)]
pub struct AccountsResult {
    pub accounts: Vec<AccountInfo>,
    pub next_action: NextAction,
}

/// The account whose mailboxes are suggested next: the first one, or
/// `default` if there is none.
pub open spec fn first_account(accounts: Seq<AccountConfig>) -> Seq<char> {
    if accounts.len() > 0 {
        accounts[0].account_id@
    } else {
        "default"@
    }
}

/// `r` lists the accounts of `config`: one line for each account, in their
/// order, with its identifier, host, port and transport flag and without
/// its credential; the mailboxes of the first account are suggested next.
pub open spec fn accounts_listed(r: AccountsResult, config: ServerConfig) -> bool {
    &&& r.accounts@.len() == config.accounts@.len()
    &&& forall|i: int|
        0 <= i < r.accounts@.len() ==> describes(#[trigger] r.accounts@[i], config.accounts@[i])
    &&& r.next_action.deep_view() == list_mailboxes_next(first_account(config.accounts@))
}

/// Lists the accounts, in their order and without their credentials.
pub fn list_accounts(config: &ServerConfig) -> (r: AccountsResult)
    ensures
        accounts_listed(r, *config),
{
    let mut accounts: Vec<AccountInfo> = Vec::new();
    let mut i: usize = 0;
    while i < config.accounts.len()
        invariant
            i <= config.accounts.len(),
            accounts@.len() == i,
            forall|k: int| 0 <= k < i ==> describes(#[trigger] accounts@[k], config.accounts@[k]),
        decreases config.accounts.len() - i,
    {
        accounts.push(account_info(&config.accounts[i]));
        i += 1;
    }
    let next_action = if config.accounts.len() > 0 {
        next_action_list_mailboxes(config.accounts[0].account_id.as_str())
    } else {
        next_action_list_mailboxes("default")
    };
    AccountsResult { accounts, next_action }
}

/// Why a tool that takes an account alone cannot begin, if it cannot: the
/// account identifier is malformed, or the account is unknown.
pub open spec fn account_fault(config: ServerConfig, input: AccountOnlyInput) -> Option<
    (ErrorKind, Seq<char>),
> {
    if account_id_fault(input.account_id@) is Some {
        Some((ErrorKind::InvalidInput, account_id_fault(input.account_id@)->Some_0))
    } else if !has_account(config.accounts@, input.account_id@) {
        Some((ErrorKind::NotFound, unknown_account_message(input.account_id@)))
    } else {
        None
    }
}

/// The account that the request names.
pub open spec fn named_account(config: ServerConfig, input: AccountOnlyInput) -> AccountConfig {
    config.accounts@[account_position(config.accounts@, input.account_id@)]
}

// ---------------------------------------------------------------------------
// The probe of an account
// ---------------------------------------------------------------------------

/// What the probe of an account reports.
#[derive(Debug)]
pub struct VerifyResult {
    pub status: Status,
    pub issues: Vec<ToolIssue>,
    pub next_action: NextAction,
    pub account_id: String,
    /// Whether the account can be used.
    pub ok: bool,
    /// How long the probe took, in milliseconds.
    pub latency_ms: u64,
    pub server: AccountInfo,
    /// The capabilities of the server, printed and in the order of strings.
    pub capabilities: Vec<String>,
}

/// What the probe of an account waits for.
#[derive(Debug, Clone, Copy, PartialEq, Eq, Structural)]
pub enum VerifyPhase {
    /// The session is being opened.
    Connecting,
    /// The liveness probe is under way.
    Probing,
    /// The capabilities of the server are being asked for.
    Listing,
}

/// The probe of an account under way.
#[derive(Debug)]
pub struct VerifyState {
    pub phase: VerifyPhase,
    /// The account as the request names it.
    pub account_id: String,
    pub server: AccountInfo,
    /// When the probe began.
    pub started: Instant,
    pub issues: Vec<ToolIssue>,
}

/// The texts of `v` stand in the order of strings.
pub open spec fn ordered(v: Seq<String>) -> bool {
    forall|i: int, j: int| 0 <= i < j < v.len() ==> !lex_lt(v[j]@, v[i]@)
}

/// The texts of a list of strings, as a bag.
pub open spec fn text_bag(v: Seq<String>) -> vstd::multiset::Multiset<Seq<char>> {
    Seq::new(v.len(), |i: int| v[i]@).to_multiset()
}

/// `<[String]>::sort` puts the strings in their order and neither adds nor
/// drops one.
#[verifier::external_body]
fn sort_strings(v: &mut Vec<String>)
    ensures
        ordered(final(v)@),
        text_bag(final(v)@) == text_bag(old(v)@),
{
    v.sort();
}

/// The first step of the probe of an account.
pub open spec fn verify_begun(
    step: Step<VerifyState, VerifyResult>,
    config: ServerConfig,
    input: AccountOnlyInput,
) -> bool {
    match account_fault(config, input) {
        Some((kind, message)) => step matches Step::Finish(r) && fails(r, kind, message),
        None => {
            &&& step matches Step::Send(s, c)
            &&& is_connect(c, input.account_id@)
            &&& s.phase == VerifyPhase::Connecting
            &&& s.account_id@ == input.account_id@
            &&& describes(s.server, named_account(config, input))
            &&& s.issues@.len() == 0
        },
    }
}

/// What every report of a probe says of the account.
pub open spec fn verify_names(r: VerifyResult, state: VerifyState) -> bool {
    &&& r.account_id@ == state.server.account_id@
    &&& r.server == state.server
}

/// The state `s` is `state` in the phase `phase` with the issues `issues`.
pub open spec fn verify_state(
    s: VerifyState,
    state: VerifyState,
    phase: VerifyPhase,
    issues: Seq<ToolIssueView>,
) -> bool {
    &&& s.phase == phase
    &&& s.account_id == state.account_id
    &&& s.server == state.server
    &&& s.started == state.started
    &&& issue_views(s.issues@) == issues
}

/// The capabilities `shown` are those of `caps`: printed, put in the order
/// of strings, and cut down to the first `MAX_CAPABILITIES`.
pub open spec fn capabilities_shown(shown: Seq<String>, caps: Seq<Capability>) -> bool {
    exists|all: Seq<String>|
        {
            &&& #[trigger] ordered(all)
            &&& text_bag(all) == Seq::new(caps.len(), |i: int| capability_text(caps[i])).to_multiset()
            &&& shown == if all.len() <= MAX_CAPABILITIES {
                all
            } else {
                all.take(MAX_CAPABILITIES as int)
            }
        }
}

/// The step `step` follows the reply `reply` in the state `state`.
///
/// A session that cannot be opened ends the probe as failed. A liveness
/// probe and a capability query that fail are noted, and the probe reports
/// what it has learned.
pub open spec fn verify_resumed(
    step: Step<VerifyState, VerifyResult>,
    state: VerifyState,
    reply: Reply,
) -> bool {
    let so_far = issue_views(state.issues@);
    match state.phase {
        VerifyPhase::Connecting => match reply {
            Reply::Done(Ok(_)) => step matches Step::Send(s, c) && verify_state(
                s,
                state,
                VerifyPhase::Probing,
                so_far,
            ) && c == Command::Noop,
            Reply::Done(Err(e)) => {
                &&& step matches Step::Finish(Ok(r))
                &&& verify_names(r, state)
                &&& r.status == Status::Failed
                &&& issue_views(r.issues@) == so_far.push(
                    issue_of("connect_authenticated"@, e, None, None),
                )
                &&& r.next_action.deep_view() == retry_verify(state.account_id@)
                &&& !r.ok
                &&& r.capabilities@.len() == 0
            },
            _ => step matches Step::Finish(r) && stray(r),
        },
        VerifyPhase::Probing => match reply {
            Reply::Done(outcome) => step matches Step::Send(s, c) && verify_state(
                s,
                state,
                VerifyPhase::Listing,
                match outcome {
                    Ok(_) => so_far,
                    Err(e) => so_far.push(issue_of("noop"@, e, None, None)),
                },
            ) && c == Command::Capabilities,
            _ => step matches Step::Finish(r) && stray(r),
        },
        VerifyPhase::Listing => match reply {
            Reply::Capabilities(outcome) => {
                &&& step matches Step::Finish(Ok(r))
                &&& verify_names(r, state)
                &&& issue_views(r.issues@) == match outcome {
                    Ok(_) => so_far,
                    Err(e) => so_far.push(issue_of("capabilities"@, e, None, None)),
                }
                &&& r.status == status_of(r.issues@.len() == 0, true)
                &&& r.ok
                &&& r.next_action.deep_view() == list_mailboxes_next(state.account_id@)
                &&& match outcome {
                    Ok(caps) => capabilities_shown(r.capabilities@, caps@),
                    Err(_) => r.capabilities@.len() == 0,
                }
            },
            _ => step matches Step::Finish(r) && stray(r),
        },
    }
}

fn print_capabilities(caps: &Vec<Capability>) -> (shown: Vec<String>)
    ensures
        capabilities_shown(shown@, caps@),
{
    let mut all: Vec<String> = Vec::new();
    let mut i: usize = 0;
    let ghost texts = Seq::new(caps@.len(), |i: int| capability_text(caps@[i]));
    while i < caps.len()
        invariant
            i <= caps.len(),
            texts == Seq::new(caps@.len(), |i: int| capability_text(caps@[i])),
            Seq::new(all@.len(), |k: int| all@[k]@) == texts.take(i as int),
        decreases caps.len() - i,
    {
        let ghost before = Seq::new(all@.len(), |k: int| all@[k]@);
        all.push(capability_to_string(&caps[i]));
        i += 1;
        assert(Seq::new(all@.len(), |k: int| all@[k]@) =~= before.push(texts[i - 1]));
        assert(texts.take(i as int) =~= texts.take(i - 1).push(texts[i - 1]));
    }
    assert(texts.take(caps.len() as int) =~= texts);
    let ghost unsorted = all@;
    assert(text_bag(unsorted) == texts.to_multiset());
    sort_strings(&mut all);
    let ghost sorted = all@;
    all.truncate(MAX_CAPABILITIES);
    proof {
        assert(ordered(sorted));
        assert(text_bag(sorted) == texts.to_multiset());
        if sorted.len() <= MAX_CAPABILITIES {
            assert(all@ =~= sorted);
        } else {
            assert(all@ =~= sorted.take(MAX_CAPABILITIES as int));
        }
    }
    all
}

/// Begins the probe of an account: checks the request and asks for a
/// session.
pub fn verify_begin(config: &ServerConfig, input: AccountOnlyInput) -> (step: Step<
    VerifyState,
    VerifyResult,
>)
    ensures
        verify_begun(step, *config, input),
{
    match validate_account_id(input.account_id.as_str()) {
        Ok(()) => {},
        Err(e) => {
            return Step::Finish(Err(e));
        },
    }
    let server = match config.get_account(input.account_id.as_str()) {
        Ok(account) => account_info(account),
        Err(e) => {
            return Step::Finish(Err(e));
        },
    };
    let command = Command::Connect { account_id: input.account_id.clone() };
    Step::Send(
        VerifyState {
            phase: VerifyPhase::Connecting,
            account_id: input.account_id,
            server,
            started: Instant::now(),
            issues: Vec::new(),
        },
        command,
    )
}

/// Takes the probe of an account one step further with the reply to its
/// last command.
pub fn verify_resume(state: VerifyState, reply: Reply) -> (step: Step<VerifyState, VerifyResult>)
    ensures
        verify_resumed(step, state, reply),
{
    match state.phase {
        VerifyPhase::Connecting => match reply {
            Reply::Done(Ok(_)) => Step::Send(
                VerifyState { phase: VerifyPhase::Probing, ..state },
                Command::Noop,
            ),
            Reply::Done(Err(e)) => {
                let mut issues = state.issues;
                record(&mut issues, issue_about("connect_authenticated", &e, None, None));
                let next_action = next_action_retry_verify(state.account_id.as_str());
                Step::Finish(
                    Ok(
                        VerifyResult {
                            status: Status::Failed,
                            issues,
                            next_action,
                            account_id: state.server.account_id.clone(),
                            ok: false,
                            latency_ms: duration_ms(&state.started),
                            server: state.server,
                            capabilities: Vec::new(),
                        },
                    ),
                )
            },
            _ => Step::Finish(Err(stray_reply())),
        },
        VerifyPhase::Probing => match reply {
            Reply::Done(outcome) => {
                let mut state = state;
                match outcome {
                    Ok(_) => {},
                    Err(e) => {
                        record(&mut state.issues, issue_about("noop", &e, None, None));
                    },
                }
                state.phase = VerifyPhase::Listing;
                Step::Send(state, Command::Capabilities)
            },
            _ => Step::Finish(Err(stray_reply())),
        },
        VerifyPhase::Listing => match reply {
            Reply::Capabilities(outcome) => {
                let mut issues = state.issues;
                let capabilities = match outcome {
                    Ok(caps) => print_capabilities(&caps),
                    Err(e) => {
                        record(&mut issues, issue_about("capabilities", &e, None, None));
                        Vec::new()
                    },
                };
                let status = crate::report::status_from_counts(issues.len() == 0, true);
                let next_action = next_action_list_mailboxes(state.account_id.as_str());
                Step::Finish(
                    Ok(
                        VerifyResult {
                            status,
                            issues,
                            next_action,
                            account_id: state.server.account_id.clone(),
                            ok: true,
                            latency_ms: duration_ms(&state.started),
                            server: state.server,
                            capabilities,
                        },
                    ),
                )
            },
            _ => Step::Finish(Err(stray_reply())),
        },
    }
}

// ---------------------------------------------------------------------------
// The list of mailboxes
// ---------------------------------------------------------------------------

/// What the list of mailboxes reports.
#[derive(Debug)]
pub struct MailboxesResult {
    pub status: Status,
    pub issues: Vec<ToolIssue>,
    pub next_action: NextAction,
    pub account_id: String,
    pub mailboxes: Vec<MailboxInfo>,
}

/// What the list of mailboxes waits for.
#[derive(Debug, Clone, Copy, PartialEq, Eq, Structural)]
pub enum MailboxesPhase {
    /// The session is being opened.
    Connecting,
    /// The mailboxes are being listed.
    Listing,
}

/// The list of mailboxes under way.
#[derive(Debug)]
pub struct MailboxesState {
    pub phase: MailboxesPhase,
    /// The account as the request names it.
    pub account_id: String,
    /// The account as it is configured.
    pub configured_id: String,
}

/// The first step of the list of mailboxes.
pub open spec fn mailboxes_begun(
    step: Step<MailboxesState, MailboxesResult>,
    config: ServerConfig,
    input: AccountOnlyInput,
) -> bool {
    match account_fault(config, input) {
        Some((kind, message)) => step matches Step::Finish(r) && fails(r, kind, message),
        None => {
            &&& step matches Step::Send(s, c)
            &&& is_connect(c, input.account_id@)
            &&& s.phase == MailboxesPhase::Connecting
            &&& s.account_id@ == input.account_id@
            &&& s.configured_id@ == named_account(config, input).account_id@
        },
    }
}

/// The mailboxes that are listed: the first `MAX_MAILBOXES`.
pub open spec fn listed(items: Seq<MailboxInfo>) -> Seq<MailboxInfo> {
    if items.len() <= MAX_MAILBOXES {
        items
    } else {
        items.take(MAX_MAILBOXES as int)
    }
}

/// What is suggested after a list of mailboxes: to search the preferred
/// mailbox, or, if there is none, to verify the account.
pub open spec fn after_mailboxes(account_id: Seq<char>, mailboxes: Seq<MailboxInfo>) -> NextActionView {
    match preferred_mailbox(mailboxes) {
        Some(name) => search_mailbox_next(account_id, name),
        None => retry_verify(account_id),
    }
}

/// The result `r` reports the mailboxes `mailboxes` and the issues
/// `issues`.
pub open spec fn mailboxes_report(
    r: MailboxesResult,
    state: MailboxesState,
    issues: Seq<ToolIssueView>,
    mailboxes: Seq<MailboxInfo>,
) -> bool {
    &&& r.status == status_of(issues.len() == 0, mailboxes.len() > 0)
    &&& issue_views(r.issues@) == issues
    &&& r.account_id@ == state.configured_id@
    &&& r.mailboxes@ == mailboxes
    &&& r.next_action.deep_view() == after_mailboxes(state.account_id@, mailboxes)
}

/// The step `step` follows the reply `reply` in the state `state`.
///
/// A session that cannot be opened ends the call as failed, and so does a
/// listing that fails: there is nothing to show.
pub open spec fn mailboxes_resumed(
    step: Step<MailboxesState, MailboxesResult>,
    state: MailboxesState,
    reply: Reply,
) -> bool {
    match state.phase {
        MailboxesPhase::Connecting => match reply {
            Reply::Done(Ok(_)) => step matches Step::Send(s, c) && s == (MailboxesState {
                phase: MailboxesPhase::Listing,
                ..state
            }) && c == Command::ListMailboxes,
            Reply::Done(Err(e)) => step matches Step::Finish(Ok(r)) && mailboxes_report(
                r,
                state,
                seq![issue_of("connect_authenticated"@, e, None, None)],
                Seq::empty(),
            ),
            _ => step matches Step::Finish(r) && stray(r),
        },
        MailboxesPhase::Listing => match reply {
            Reply::Mailboxes(Ok(items)) => step matches Step::Finish(Ok(r)) && mailboxes_report(
                r,
                state,
                Seq::empty(),
                listed(items@),
            ),
            Reply::Mailboxes(Err(e)) => step matches Step::Finish(Ok(r)) && mailboxes_report(
                r,
                state,
                seq![issue_of("list_mailboxes"@, e, None, None)],
                Seq::empty(),
            ),
            _ => step matches Step::Finish(r) && stray(r),
        },
    }
}

fn mailboxes_finish(state: MailboxesState, issues: Vec<ToolIssue>, mailboxes: Vec<MailboxInfo>) -> (r:
    MailboxesResult)
    ensures
        mailboxes_report(r, state, issue_views(issues@), mailboxes@),
{
    let status = crate::report::status_from_issue_and_counts(&issues, mailboxes.len() > 0);
    let next_action = match preferred_mailbox_name(&mailboxes) {
        Some(name) => next_action_search_mailbox(state.account_id.as_str(), name.as_str()),
        None => next_action_retry_verify(state.account_id.as_str()),
    };
    MailboxesResult { status, issues, next_action, account_id: state.configured_id, mailboxes }
}

/// Begins the list of mailboxes: checks the request and asks for a session.
pub fn mailboxes_begin(config: &ServerConfig, input: AccountOnlyInput) -> (step: Step<
    MailboxesState,
    MailboxesResult,
>)
    ensures
        mailboxes_begun(step, *config, input),
{
    match validate_account_id(input.account_id.as_str()) {
        Ok(()) => {},
        Err(e) => {
            return Step::Finish(Err(e));
        },
    }
    let configured_id = match config.get_account(input.account_id.as_str()) {
        Ok(account) => account.account_id.clone(),
        Err(e) => {
            return Step::Finish(Err(e));
        },
    };
    let command = Command::Connect { account_id: input.account_id.clone() };
    Step::Send(
        MailboxesState {
            phase: MailboxesPhase::Connecting,
            account_id: input.account_id,
            configured_id,
        },
        command,
    )
}

/// Takes the list of mailboxes one step further with the reply to its last
/// command.
pub fn mailboxes_resume(state: MailboxesState, reply: Reply) -> (step: Step<
    MailboxesState,
    MailboxesResult,
>)
    ensures
        mailboxes_resumed(step, state, reply),
{
    match state.phase {
        MailboxesPhase::Connecting => match reply {
            Reply::Done(Ok(_)) => Step::Send(
                MailboxesState { phase: MailboxesPhase::Listing, ..state },
                Command::ListMailboxes,
            ),
            Reply::Done(Err(e)) => {
                let issue = issue_about("connect_authenticated", &e, None, None);
                let none: Vec<MailboxInfo> = Vec::new();
                assert(none@ =~= Seq::<MailboxInfo>::empty());
                Step::Finish(Ok(mailboxes_finish(state, single(issue), none)))
            },
            _ => Step::Finish(Err(stray_reply())),
        },
        MailboxesPhase::Listing => match reply {
            Reply::Mailboxes(Ok(items)) => {
                let ghost all = items@;
                let mut items = items;
                items.truncate(MAX_MAILBOXES);
                assert(items@ =~= listed(all));
                let issues: Vec<ToolIssue> = Vec::new();
                assert(issue_views(issues@) =~= Seq::<ToolIssueView>::empty());
                Step::Finish(Ok(mailboxes_finish(state, issues, items)))
            },
            Reply::Mailboxes(Err(e)) => {
                let issue = issue_about("list_mailboxes", &e, None, None);
                let none: Vec<MailboxInfo> = Vec::new();
                assert(none@ =~= Seq::<MailboxInfo>::empty());
                Step::Finish(Ok(mailboxes_finish(state, single(issue), none)))
            },
            _ => Step::Finish(Err(stray_reply())),
        },
    }
}

} // verus!
