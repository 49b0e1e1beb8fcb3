//! The protocol session layer, as far as it decides anything: what each
//! deadline-bounded command yields, given how it ended, and the order in
//! which a session is opened.
//!
//! The commands themselves are sent by the caller. It reports how each one
//! ended as an `Outcome` (one deadline) or a `StreamOutcome` (one deadline
//! for the command and one for reading its answers), and gets back the result
//! on which the tools decide.

use crate::config::{AccountConfig, ServerConfig};
use crate::errors::{AppError, AppResult};
use crate::models::MailboxInfo;
use crate::text::{ascii_lower, concat2, concat3, contains_seq, str_contains, to_ascii_lowercase};
use vstd::prelude::*;

verus! {

/// How a command with one deadline ended.
#[derive(Debug)]
pub enum Outcome<T> {
    /// The deadline passed first.
    TimedOut,
    /// The command failed, with this text.
    Failed(String),
    /// The command completed, with this value.
    Completed(T),
}

/// How a command ended that is answered by a stream: one deadline for the
/// command, one for reading the stream to its end.
#[derive(Debug)]
pub enum StreamOutcome<T> {
    /// The deadline of the command passed first.
    TimedOut,
    /// The command failed, with this text.
    Failed(String),
    /// The deadline of the stream passed first.
    StreamTimedOut,
    /// Reading the stream failed, with this text.
    StreamFailed(String),
    /// The stream was read to its end, with this value.
    Completed(T),
}

/// The class of an error, without its message.
#[derive(Debug, Clone, Copy, PartialEq, Eq, Structural)]
pub enum ErrorKind {
    InvalidInput,
    NotFound,
    AuthFailed,
    Timeout,
    Conflict,
    Internal,
}

/// The class of an error.
pub open spec fn kind_of(e: AppError) -> ErrorKind {
    match e {
        AppError::InvalidInput(_) => ErrorKind::InvalidInput,
        AppError::NotFound(_) => ErrorKind::NotFound,
        AppError::AuthFailed(_) => ErrorKind::AuthFailed,
        AppError::Timeout(_) => ErrorKind::Timeout,
        AppError::Conflict(_) => ErrorKind::Conflict,
        AppError::Internal(_) => ErrorKind::Internal,
    }
}

/// `r` fails with an error of the class `kind` and the message `message`.
pub open spec fn fails<T>(r: AppResult<T>, kind: ErrorKind, message: Seq<char>) -> bool {
    r is Err && kind_of(r->Err_0) == kind && r->Err_0.message() == message
}

/// Deadline of every command of an open session, in milliseconds.
pub fn socket_timeout(server: &ServerConfig) -> (ms: u64)
    ensures
        ms == server.socket_timeout_ms,
{
    server.socket_timeout_ms
}

/// What a command with one deadline yields: its value if it completed, a
/// `Timeout` with the words `timed_out` if the deadline passed, an `Internal`
/// error with the words `failed` and the text of the failure if it failed.
pub open spec fn settled<T>(
    r: AppResult<T>,
    outcome: Outcome<T>,
    timed_out: Seq<char>,
    failed: Seq<char>,
) -> bool {
    match outcome {
        Outcome::TimedOut => fails(r, ErrorKind::Timeout, timed_out),
        Outcome::Failed(e) => fails(r, ErrorKind::Internal, failed + e@),
        Outcome::Completed(v) => r == Ok::<T, AppError>(v),
    }
}

/// What a command yields that is answered by a stream: like `settled`, with
/// words of their own for the two ways in which reading the stream can end
/// badly.
pub open spec fn stream_settled<T>(
    r: AppResult<T>,
    outcome: StreamOutcome<T>,
    timed_out: Seq<char>,
    failed: Seq<char>,
    stream_timed_out: Seq<char>,
    stream_failed: Seq<char>,
) -> bool {
    match outcome {
        StreamOutcome::TimedOut => fails(r, ErrorKind::Timeout, timed_out),
        StreamOutcome::Failed(e) => fails(r, ErrorKind::Internal, failed + e@),
        StreamOutcome::StreamTimedOut => fails(r, ErrorKind::Timeout, stream_timed_out),
        StreamOutcome::StreamFailed(e) => fails(r, ErrorKind::Internal, stream_failed + e@),
        StreamOutcome::Completed(v) => r == Ok::<T, AppError>(v),
    }
}

fn settle<T>(outcome: Outcome<T>, timed_out: &str, failed: &str) -> (r: AppResult<T>)
    ensures
        settled(r, outcome, timed_out@, failed@),
{
    match outcome {
        Outcome::TimedOut => Err(AppError::Timeout(timed_out.to_owned())),
        Outcome::Failed(e) => Err(AppError::Internal(concat2(failed, e.as_str()))),
        Outcome::Completed(v) => Ok(v),
    }
}

fn settle_stream<T>(
    outcome: StreamOutcome<T>,
    timed_out: &str,
    failed: &str,
    stream_timed_out: &str,
    stream_failed: &str,
) -> (r: AppResult<T>)
    ensures
        stream_settled(r, outcome, timed_out@, failed@, stream_timed_out@, stream_failed@),
{
    match outcome {
        StreamOutcome::TimedOut => Err(AppError::Timeout(timed_out.to_owned())),
        StreamOutcome::Failed(e) => Err(AppError::Internal(concat2(failed, e.as_str()))),
        StreamOutcome::StreamTimedOut => Err(AppError::Timeout(stream_timed_out.to_owned())),
        StreamOutcome::StreamFailed(e) => Err(
            AppError::Internal(concat2(stream_failed, e.as_str())),
        ),
        StreamOutcome::Completed(v) => Ok(v),
    }
}

// ---------------------------------------------------------------------------
// Commands without a value
// ---------------------------------------------------------------------------

/// What a liveness probe yields.
pub fn noop(outcome: Outcome<()>) -> (r: AppResult<()>)
    ensures
        settled(r, outcome, "NOOP timed out"@, "NOOP failed: "@),
{
    settle(outcome, "NOOP timed out", "NOOP failed: ")
}

/// What a copy within one account yields.
pub fn uid_copy(outcome: Outcome<()>) -> (r: AppResult<()>)
    ensures
        settled(r, outcome, "UID COPY timed out"@, "UID COPY failed: "@),
{
    settle(outcome, "UID COPY timed out", "UID COPY failed: ")
}

/// What a native move yields.
pub fn uid_move(outcome: Outcome<()>) -> (r: AppResult<()>)
    ensures
        settled(r, outcome, "UID MOVE timed out"@, "UID MOVE failed: "@),
{
    settle(outcome, "UID MOVE timed out", "UID MOVE failed: ")
}

/// What an append yields.
pub fn append(outcome: Outcome<()>) -> (r: AppResult<()>)
    ensures
        settled(r, outcome, "APPEND timed out"@, "APPEND failed: "@),
{
    settle(outcome, "APPEND timed out", "APPEND failed: ")
}

/// What a flag store yields.
pub fn uid_store(outcome: StreamOutcome<()>) -> (r: AppResult<()>)
    ensures
        stream_settled(
            r,
            outcome,
            "UID STORE timed out"@,
            "uid store failed: "@,
            "UID STORE stream timed out"@,
            "uid store stream failed: "@,
        ),
{
    settle_stream(
        outcome,
        "UID STORE timed out",
        "uid store failed: ",
        "UID STORE stream timed out",
        "uid store stream failed: ",
    )
}

/// What an expunge yields.
pub fn uid_expunge(outcome: StreamOutcome<()>) -> (r: AppResult<()>)
    ensures
        stream_settled(
            r,
            outcome,
            "UID EXPUNGE timed out"@,
            "UID EXPUNGE failed: "@,
            "UID EXPUNGE stream timed out"@,
            "UID EXPUNGE stream failed: "@,
        ),
{
    settle_stream(
        outcome,
        "UID EXPUNGE timed out",
        "UID EXPUNGE failed: ",
        "UID EXPUNGE stream timed out",
        "UID EXPUNGE stream failed: ",
    )
}

// ---------------------------------------------------------------------------
// Capabilities and mailboxes
// ---------------------------------------------------------------------------

/// One capability that a server announces.
#[derive(Debug)]
pub enum Capability {
    /// The protocol revision `IMAP4rev1`.
    Imap4rev1,
    /// An authentication mechanism.
    Auth(String),
    /// Any other capability.
    Atom(String),
}

/// What a capability query yields.
pub fn capabilities(outcome: Outcome<Vec<Capability>>) -> (r: AppResult<Vec<Capability>>)
    ensures
        settled(r, outcome, "CAPABILITY timed out"@, "CAPABILITY failed: "@),
{
    settle(outcome, "CAPABILITY timed out", "CAPABILITY failed: ")
}

/// The capability is `MOVE`.
pub open spec fn is_move(cap: Capability) -> bool {
    cap matches Capability::Atom(a) && a@ == "MOVE"@
}

/// The server announces the capability `MOVE`.
pub open spec fn announces_move(caps: Seq<Capability>) -> bool {
    exists|i: int| 0 <= i < caps.len() && is_move(#[trigger] caps[i])
}

/// Whether the server announces the capability `MOVE`.
pub fn has_move(caps: &Vec<Capability>) -> (r: bool)
    ensures
        r == announces_move(caps@),
{
    let mut i: usize = 0;
    while i < caps.len()
        invariant
            i <= caps.len(),
            forall|j: int| 0 <= j < i ==> !is_move(#[trigger] caps@[j]),
        decreases caps.len() - i,
    {
        if let Capability::Atom(a) = &caps[i] {
            if crate::text::str_eq(a.as_str(), "MOVE") {
                assert(is_move(caps@[i as int]));
                return true;
            }
        }
        i += 1;
    }
    false
}

/// What a mailbox listing yields.
pub fn list_all_mailboxes(outcome: StreamOutcome<Vec<MailboxInfo>>) -> (r: AppResult<
    Vec<MailboxInfo>,
>)
    ensures
        stream_settled(
            r,
            outcome,
            "LIST timed out"@,
            "LIST failed: "@,
            "LIST stream timed out"@,
            "LIST stream failed: "@,
        ),
{
    settle_stream(
        outcome,
        "LIST timed out",
        "LIST failed: ",
        "LIST stream timed out",
        "LIST stream failed: ",
    )
}

// ---------------------------------------------------------------------------
// Selecting a mailbox
// ---------------------------------------------------------------------------

/// What selecting a mailbox yields: the epoch of the mailbox. The words of
/// the errors name the command (`verb`) and what it does (`action`). A
/// failure of the command means that the mailbox cannot be found; a server
/// that names no epoch breaks an invariant on which identities and paging
/// rest.
pub open spec fn selected(
    r: AppResult<u32>,
    mailbox: Seq<char>,
    outcome: Outcome<Option<u32>>,
    verb: Seq<char>,
    action: Seq<char>,
) -> bool {
    match outcome {
        Outcome::TimedOut => fails(
            r,
            ErrorKind::Timeout,
            verb + " timed out for mailbox '"@ + mailbox + "'"@,
        ),
        Outcome::Failed(e) => fails(
            r,
            ErrorKind::NotFound,
            "cannot "@ + action + " mailbox '"@ + mailbox + "': "@ + e@,
        ),
        Outcome::Completed(None) => fails(r, ErrorKind::Internal, "mailbox missing UIDVALIDITY"@),
        Outcome::Completed(Some(epoch)) => r == Ok::<u32, AppError>(epoch),
    }
}

fn select_with(mailbox: &str, outcome: Outcome<Option<u32>>, verb: &str, action: &str) -> (r:
    AppResult<u32>)
    ensures
        selected(r, mailbox@, outcome, verb@, action@),
{
    match outcome {
        Outcome::TimedOut => {
            let mut m = concat3(verb, " timed out for mailbox '", mailbox);
            m.append("'");
            Err(AppError::Timeout(m))
        },
        Outcome::Failed(e) => {
            let mut m = concat3("cannot ", action, " mailbox '");
            m.append(mailbox);
            m.append("': ");
            m.append(e.as_str());
            Err(AppError::NotFound(m))
        },
        Outcome::Completed(None) => Err(AppError::Internal("mailbox missing UIDVALIDITY".to_owned())),
        Outcome::Completed(Some(epoch)) => Ok(epoch),
    }
}

/// What selecting a mailbox for reading only yields.
pub fn select_mailbox_readonly(mailbox: &str, outcome: Outcome<Option<u32>>) -> (r: AppResult<u32>)
    ensures
        selected(r, mailbox@, outcome, "EXAMINE"@, "examine"@),
{
    select_with(mailbox, outcome, "EXAMINE", "examine")
}

/// What selecting a mailbox for reading and writing yields.
pub fn select_mailbox_readwrite(mailbox: &str, outcome: Outcome<Option<u32>>) -> (r: AppResult<
    u32,
>)
    ensures
        selected(r, mailbox@, outcome, "SELECT"@, "select"@),
{
    select_with(mailbox, outcome, "SELECT", "select")
}

// ---------------------------------------------------------------------------
// Searching
// ---------------------------------------------------------------------------

/// No number of `s` is followed by a smaller one.
pub open spec fn ascending(s: Seq<u32>) -> bool {
    forall|i: int, j: int| 0 <= i < j < s.len() ==> s[i] <= s[j]
}

/// No number of `s` is followed by a larger one: newest first.
pub open spec fn descending(s: Seq<u32>) -> bool {
    forall|i: int, j: int| 0 <= i < j < s.len() ==> s[i] >= s[j]
}

/// `<[u32]>::sort_unstable` puts the numbers in ascending order and neither
/// adds nor drops one.
#[verifier::external_body]
fn sort_ascending(v: &mut Vec<u32>)
    ensures
        ascending(final(v)@),
        final(v)@.to_multiset() == old(v)@.to_multiset(),
{
    v.sort_unstable();
}

/// The numbers of `v` in descending order.
pub fn sorted_descending(v: Vec<u32>) -> (r: Vec<u32>)
    ensures
        descending(r@),
        r@.to_multiset() == v@.to_multiset(),
{
    let mut v = v;
    let ghost orig = v@;
    sort_ascending(&mut v);
    let ghost up = v@;
    let mut r: Vec<u32> = Vec::new();
    let mut i: usize = v.len();
    while i > 0
        invariant
            i <= v.len(),
            v@ == up,
            r@.len() == v.len() - i,
            forall|k: int| 0 <= k < r@.len() ==> r@[k] == up[up.len() - 1 - k],
        decreases i,
    {
        i -= 1;
        r.push(v[i]);
    }
    proof {
        assert(r@ =~= up.reverse());
        up.lemma_reverse_to_multiset();
    }
    r
}

/// What a search yields: the matching numbers, newest first.
pub fn uid_search(outcome: Outcome<Vec<u32>>) -> (r: AppResult<Vec<u32>>)
    ensures
        match outcome {
            Outcome::TimedOut => fails(r, ErrorKind::Timeout, "UID SEARCH timed out"@),
            Outcome::Failed(e) => fails(r, ErrorKind::Internal, "uid search failed: "@ + e@),
            Outcome::Completed(found) => r is Ok && descending(r->Ok_0@) && r->Ok_0@.to_multiset()
                == found@.to_multiset(),
        },
{
    match settle(outcome, "UID SEARCH timed out", "uid search failed: ") {
        Ok(found) => Ok(sorted_descending(found)),
        Err(e) => Err(e),
    }
}

// ---------------------------------------------------------------------------
// Fetching
// ---------------------------------------------------------------------------

/// A flag of a message.
#[derive(Debug)]
pub enum Flag {
    Seen,
    Answered,
    Flagged,
    Deleted,
    Draft,
    Recent,
    MayCreate,
    /// A flag that the protocol does not define.
    Custom(String),
}

/// What a server sent for one message.
#[derive(Debug)]
pub struct Fetched {
    /// The body that was asked for, if it came.
    pub body: Option<Vec<u8>>,
    /// The header that was asked for, if it came.
    pub header: Option<Vec<u8>>,
    /// The flags of the message.
    pub flags: Vec<Flag>,
}

/// What the message source is asked for.
pub fn raw_query() -> (q: &'static str)
    ensures
        q@ == "UID RFC822"@,
{
    "UID RFC822"
}

/// What the headers of a summary and the flags are asked for. The headers
/// are peeked at, so that the message is not marked as read.
pub fn headers_and_flags_query() -> (q: &'static str)
    ensures
        q@ == "UID FLAGS BODY.PEEK[HEADER.FIELDS (DATE FROM TO CC SUBJECT)]"@,
{
    "UID FLAGS BODY.PEEK[HEADER.FIELDS (DATE FROM TO CC SUBJECT)]"
}

/// What the flags alone are asked for.
pub fn flags_query() -> (q: &'static str)
    ensures
        q@ == "UID FLAGS"@,
{
    "UID FLAGS"
}

/// The text that the `Debug` form of a string slice gives: the string in
/// double quotes, with escapes.
pub uninterp spec fn debug_form(text: Seq<char>) -> Seq<char>;

/// `format!("{:?}", text)` writes the `Debug` form of a string slice.
#[verifier::external_body]
fn debug_text(text: &str) -> (r: String)
    ensures
        r@ == debug_form(text@),
{
    format!("{:?}", text)
}

/// The printed form of a flag: its name, and for a custom flag `Custom(..)`
/// around the `Debug` form of its text.
pub open spec fn flag_text(flag: Flag) -> Seq<char> {
    match flag {
        Flag::Seen => "Seen"@,
        Flag::Answered => "Answered"@,
        Flag::Flagged => "Flagged"@,
        Flag::Deleted => "Deleted"@,
        Flag::Draft => "Draft"@,
        Flag::Recent => "Recent"@,
        Flag::MayCreate => "MayCreate"@,
        Flag::Custom(t) => "Custom("@ + debug_form(t@) + ")"@,
    }
}

/// The printed form of a capability.
pub open spec fn capability_text(cap: Capability) -> Seq<char> {
    match cap {
        Capability::Imap4rev1 => "Imap4rev1"@,
        Capability::Auth(t) => "Auth("@ + debug_form(t@) + ")"@,
        Capability::Atom(t) => "Atom("@ + debug_form(t@) + ")"@,
    }
}

/// Prints a flag.
pub fn flag_to_string(flag: &Flag) -> (r: String)
    ensures
        r@ == flag_text(*flag),
{
    match flag {
        Flag::Seen => "Seen".to_owned(),
        Flag::Answered => "Answered".to_owned(),
        Flag::Flagged => "Flagged".to_owned(),
        Flag::Deleted => "Deleted".to_owned(),
        Flag::Draft => "Draft".to_owned(),
        Flag::Recent => "Recent".to_owned(),
        Flag::MayCreate => "MayCreate".to_owned(),
        Flag::Custom(t) => {
            let d = debug_text(t.as_str());
            concat3("Custom(", d.as_str(), ")")
        },
    }
}

/// Prints a capability.
pub fn capability_to_string(cap: &Capability) -> (r: String)
    ensures
        r@ == capability_text(*cap),
{
    match cap {
        Capability::Imap4rev1 => "Imap4rev1".to_owned(),
        Capability::Auth(t) => {
            let d = debug_text(t.as_str());
            concat3("Auth(", d.as_str(), ")")
        },
        Capability::Atom(t) => {
            let d = debug_text(t.as_str());
            concat3("Atom(", d.as_str(), ")")
        },
    }
}

/// The printed forms of the flags of a message, in their order.
pub fn flags_to_strings(fetch: &Fetched) -> (r: Vec<String>)
    ensures
        r@.len() == fetch.flags@.len(),
        forall|i: int| 0 <= i < r@.len() ==> (#[trigger] r@[i])@ == flag_text(fetch.flags@[i]),
{
    let mut r: Vec<String> = Vec::new();
    let mut i: usize = 0;
    while i < fetch.flags.len()
        invariant
            i <= fetch.flags.len(),
            r@.len() == i,
            forall|k: int| 0 <= k < i ==> (#[trigger] r@[k])@ == flag_text(fetch.flags@[k]),
        decreases fetch.flags.len() - i,
    {
        r.push(flag_to_string(&fetch.flags[i]));
        i += 1;
    }
    r
}

/// The message that reports a message as missing.
pub open spec fn missing_message(uid: u32) -> Seq<char> {
    "message uid "@ + crate::text::decimal(uid as nat) + " not found"@
}

/// What a fetch of one message yields: the first answer of the stream, or
/// `NotFound` if the stream was empty.
pub fn fetch_one(uid: u32, outcome: StreamOutcome<Vec<Fetched>>) -> (r: AppResult<Fetched>)
    ensures
        match outcome {
            StreamOutcome::Completed(answers) => if answers@.len() > 0 {
                r == Ok::<Fetched, AppError>(answers@[0])
            } else {
                fails(r, ErrorKind::NotFound, missing_message(uid))
            },
            StreamOutcome::TimedOut => fails(r, ErrorKind::Timeout, "UID FETCH timed out"@),
            StreamOutcome::Failed(e) => fails(r, ErrorKind::Internal, "uid fetch failed: "@ + e@),
            StreamOutcome::StreamTimedOut => fails(
                r,
                ErrorKind::Timeout,
                "UID FETCH stream timed out"@,
            ),
            StreamOutcome::StreamFailed(e) => fails(
                r,
                ErrorKind::Internal,
                "uid fetch stream failed: "@ + e@,
            ),
        },
{
    let answers = match settle_stream(
        outcome,
        "UID FETCH timed out",
        "uid fetch failed: ",
        "UID FETCH stream timed out",
        "uid fetch stream failed: ",
    ) {
        Ok(a) => a,
        Err(e) => {
            return Err(e);
        },
    };
    let mut answers = answers;
    if answers.len() > 0 {
        Ok(answers.swap_remove(0))
    } else {
        let mut m = "message uid ".to_owned();
        crate::text::push_decimal(&mut m, uid as u64);
        m.append(" not found");
        Err(AppError::NotFound(m))
    }
}

/// What a fetch of the message source yields: the body of the answer, or an
/// `Internal` error if the answer has none.
pub fn fetch_raw_message(fetched: AppResult<Fetched>) -> (r: AppResult<Vec<u8>>)
    ensures
        match fetched {
            Err(e) => r == Err::<Vec<u8>, AppError>(e),
            Ok(f) => match f.body {
                Some(b) => r == Ok::<Vec<u8>, AppError>(b),
                None => fails(r, ErrorKind::Internal, "message has no RFC822 body"@),
            },
        },
{
    match fetched {
        Err(e) => Err(e),
        Ok(f) => match f.body {
            Some(b) => Ok(b),
            None => Err(AppError::Internal("message has no RFC822 body".to_owned())),
        },
    }
}

/// What a fetch of summary headers and flags yields: the header of the
/// answer, or else its body, with the printed flags; an `Internal` error if
/// the answer has neither header nor body.
pub fn fetch_headers_and_flags(fetched: AppResult<Fetched>) -> (r: AppResult<(Vec<u8>, Vec<String>)>)
    ensures
        match fetched {
            Err(e) => r == Err::<(Vec<u8>, Vec<String>), AppError>(e),
            Ok(f) => if f.header is None && f.body is None {
                fails(r, ErrorKind::Internal, "message headers not available"@)
            } else {
                &&& r is Ok
                &&& r->Ok_0.0 == (if f.header is Some {
                    f.header->Some_0
                } else {
                    f.body->Some_0
                })
                &&& r->Ok_0.1@.len() == f.flags@.len()
                &&& forall|i: int|
                    0 <= i < f.flags@.len() ==> (#[trigger] r->Ok_0.1@[i])@ == flag_text(f.flags@[i])
            },
        },
{
    match fetched {
        Err(e) => Err(e),
        Ok(f) => {
            let flags = flags_to_strings(&f);
            match f.header {
                Some(h) => Ok((h, flags)),
                None => match f.body {
                    Some(b) => Ok((b, flags)),
                    None => Err(AppError::Internal("message headers not available".to_owned())),
                },
            }
        },
    }
}

/// What a fetch of the flags yields: the printed flags of the answer.
pub fn fetch_flags(fetched: AppResult<Fetched>) -> (r: AppResult<Vec<String>>)
    ensures
        match fetched {
            Err(e) => r == Err::<Vec<String>, AppError>(e),
            Ok(f) => {
                &&& r is Ok
                &&& r->Ok_0@.len() == f.flags@.len()
                &&& forall|i: int|
                    0 <= i < f.flags@.len() ==> (#[trigger] r->Ok_0@[i])@ == flag_text(f.flags@[i])
            },
        },
{
    match fetched {
        Err(e) => Err(e),
        Ok(f) => Ok(flags_to_strings(&f)),
    }
}

// ---------------------------------------------------------------------------
// Opening a session
// ---------------------------------------------------------------------------

/// Whether `ServerName::try_from` takes a text as the name of a server: a
/// DNS name or an IP address.
pub uninterp spec fn names_server(host: Seq<char>) -> bool;

/// `ServerName::try_from` decides whether a text is a DNS name or an IP
/// address.
#[verifier::external_body]
fn server_name_accepts(host: &str) -> (r: bool)
    ensures
        r == names_server(host@),
{
    rustls_pki_types::ServerName::try_from(host).is_ok()
}

/// How far the opening of a session has come.
#[derive(Debug, Clone, Copy, PartialEq, Eq, Structural)]
pub enum ConnectPhase {
    /// The transport connect is under way.
    Transport,
    /// The security handshake is under way.
    Handshake,
    /// The greeting is being read.
    Greeting,
    /// The login is under way.
    Login,
}

/// What the caller does next to open a session. Each step has its deadline
/// in milliseconds; handshake, greeting and login share one.
#[derive(Debug)]
pub enum ConnectStep {
    /// Connect the transport to `host` and `port`.
    Transport { host: String, port: u16, timeout_ms: u64 },
    /// Secure the transport for the server named `host`.
    Handshake { host: String, timeout_ms: u64 },
    /// Read the greeting of the server.
    Greeting { timeout_ms: u64 },
    /// Log in as `user` with the credential of the account.
    Login { user: String, timeout_ms: u64 },
    /// The session is open, or it cannot be opened.
    Done(AppResult<()>),
}

/// A login failure is a rejection of the credential if its text speaks of
/// authentication: it holds `auth` in any letter case, or `LOGIN`.
pub open spec fn speaks_of_authentication(text: Seq<char>) -> bool {
    contains_seq(ascii_lower(text), "auth"@) || contains_seq(text, "LOGIN"@)
}

/// The first step of opening a session: reject an account whose transport
/// is not secured, else connect the transport.
pub open spec fn connect_start_spec(step: ConnectStep, server: ServerConfig, account: AccountConfig) -> bool {
    if !account.secure {
        step matches ConnectStep::Done(r) && fails(
            r,
            ErrorKind::InvalidInput,
            "insecure IMAP is not supported; set MAIL_IMAP_<ACCOUNT>_SECURE=true"@,
        )
    } else {
        step matches ConnectStep::Transport { host, port, timeout_ms } && host@ == account.host@
            && port == account.port && timeout_ms == server.connect_timeout_ms
    }
}

/// The step that follows the end `event` of the step of the phase `phase`.
///
/// Each step that ends badly ends the opening, with a `Timeout` for a
/// deadline and an `Internal` error for a failure; a login failure that
/// speaks of authentication is an `AuthFailed`. After the transport connect
/// the host must name a server, else the input is invalid. The value of
/// `event` counts only for the greeting, where it says whether one came.
pub open spec fn connect_next_spec(
    step: ConnectStep,
    server: ServerConfig,
    account: AccountConfig,
    phase: ConnectPhase,
    event: Outcome<bool>,
) -> bool {
    match phase {
        ConnectPhase::Transport => match event {
            Outcome::TimedOut => step matches ConnectStep::Done(r) && fails(
                r,
                ErrorKind::Timeout,
                "tcp connect timeout"@,
            ),
            Outcome::Failed(e) => step matches ConnectStep::Done(r) && fails(
                r,
                ErrorKind::Internal,
                "tcp connect failed: "@ + e@,
            ),
            Outcome::Completed(_) => if names_server(account.host@) {
                step matches ConnectStep::Handshake { host, timeout_ms } && host@ == account.host@
                    && timeout_ms == server.greeting_timeout_ms
            } else {
                step matches ConnectStep::Done(r) && fails(
                    r,
                    ErrorKind::InvalidInput,
                    "invalid IMAP host for TLS SNI"@,
                )
            },
        },
        ConnectPhase::Handshake => match event {
            Outcome::TimedOut => step matches ConnectStep::Done(r) && fails(
                r,
                ErrorKind::Timeout,
                "TLS handshake timeout"@,
            ),
            Outcome::Failed(e) => step matches ConnectStep::Done(r) && fails(
                r,
                ErrorKind::Internal,
                "TLS handshake failed: "@ + e@,
            ),
            Outcome::Completed(_) => step matches ConnectStep::Greeting { timeout_ms }
                && timeout_ms == server.greeting_timeout_ms,
        },
        ConnectPhase::Greeting => match event {
            Outcome::TimedOut => step matches ConnectStep::Done(r) && fails(
                r,
                ErrorKind::Timeout,
                "IMAP greeting timeout"@,
            ),
            Outcome::Failed(e) => step matches ConnectStep::Done(r) && fails(
                r,
                ErrorKind::Internal,
                "IMAP greeting failed: "@ + e@,
            ),
            Outcome::Completed(present) => if present {
                step matches ConnectStep::Login { user, timeout_ms } && user@ == account.user@
                    && timeout_ms == server.greeting_timeout_ms
            } else {
                step matches ConnectStep::Done(r) && fails(
                    r,
                    ErrorKind::Internal,
                    "IMAP server closed connection before greeting"@,
                )
            },
        },
        ConnectPhase::Login => match event {
            Outcome::TimedOut => step matches ConnectStep::Done(r) && fails(
                r,
                ErrorKind::Timeout,
                "IMAP login timeout"@,
            ),
            Outcome::Failed(e) => step matches ConnectStep::Done(r) && fails(
                r,
                if speaks_of_authentication(e@) {
                    ErrorKind::AuthFailed
                } else {
                    ErrorKind::Internal
                },
                e@,
            ),
            Outcome::Completed(_) => step matches ConnectStep::Done(r) && r is Ok,
        },
    }
}

/// Begins to open an authenticated session for `account`.
pub fn connect_authenticated(server: &ServerConfig, account: &AccountConfig) -> (step: ConnectStep)
    ensures
        connect_start_spec(step, *server, *account),
{
    if !account.secure {
        return ConnectStep::Done(
            Err(
                AppError::invalid(
                    "insecure IMAP is not supported; set MAIL_IMAP_<ACCOUNT>_SECURE=true",
                ),
            ),
        );
    }
    ConnectStep::Transport {
        host: account.host.clone(),
        port: account.port,
        timeout_ms: server.connect_timeout_ms,
    }
}

/// The step after the transport connect: the handshake, if the host of the
/// account was accepted as the name of a server.
pub fn handshake_step(server: &ServerConfig, account: &AccountConfig, accepted: bool) -> (step:
    ConnectStep)
    ensures
        if accepted {
            step matches ConnectStep::Handshake { host, timeout_ms } && host@ == account.host@
                && timeout_ms == server.greeting_timeout_ms
        } else {
            step matches ConnectStep::Done(r) && fails(
                r,
                ErrorKind::InvalidInput,
                "invalid IMAP host for TLS SNI"@,
            )
        },
{
    if accepted {
        ConnectStep::Handshake { host: account.host.clone(), timeout_ms: server.greeting_timeout_ms }
    } else {
        ConnectStep::Done(Err(AppError::invalid("invalid IMAP host for TLS SNI")))
    }
}

/// Goes on opening a session after the step of the phase `phase` has ended
/// as `event` says.
pub fn connect_next(
    server: &ServerConfig,
    account: &AccountConfig,
    phase: ConnectPhase,
    event: Outcome<bool>,
) -> (step: ConnectStep)
    ensures
        connect_next_spec(step, *server, *account, phase, event),
{
    match phase {
        ConnectPhase::Transport => match settle(event, "tcp connect timeout", "tcp connect failed: ") {
            Err(e) => ConnectStep::Done(Err(e)),
            Ok(_) => handshake_step(server, account, server_name_accepts(account.host.as_str())),
        },
        ConnectPhase::Handshake => match settle(
            event,
            "TLS handshake timeout",
            "TLS handshake failed: ",
        ) {
            Err(e) => ConnectStep::Done(Err(e)),
            Ok(_) => ConnectStep::Greeting { timeout_ms: server.greeting_timeout_ms },
        },
        ConnectPhase::Greeting => match settle(
            event,
            "IMAP greeting timeout",
            "IMAP greeting failed: ",
        ) {
            Err(e) => ConnectStep::Done(Err(e)),
            Ok(present) => if present {
                ConnectStep::Login {
                    user: account.user.clone(),
                    timeout_ms: server.greeting_timeout_ms,
                }
            } else {
                ConnectStep::Done(
                    Err(AppError::Internal("IMAP server closed connection before greeting".to_owned())),
                )
            },
        },
        ConnectPhase::Login => match event {
            Outcome::TimedOut => ConnectStep::Done(
                Err(AppError::Timeout("IMAP login timeout".to_owned())),
            ),
            Outcome::Failed(e) => {
                let lower = to_ascii_lowercase(e.as_str());
                if str_contains(lower.as_str(), "auth") || str_contains(e.as_str(), "LOGIN") {
                    ConnectStep::Done(Err(AppError::AuthFailed(e)))
                } else {
                    ConnectStep::Done(Err(AppError::Internal(e)))
                }
            },
            Outcome::Completed(_) => ConnectStep::Done(Ok(())),
        },
    }
}

} // verus!
