//! Accounts and server settings, read from an environment of
//! `MAIL_IMAP_<SEGMENT>_<KEY>` variables.
//!
//! The library never reads the process environment itself: the caller hands
//! it the variables as plain values.

use crate::errors::{AppError, AppResult};
use crate::text::{
    ascii_lower, char_is_ascii_alphanumeric, char_to_ascii_upper, chars_of, concat2, concat3,
    is_ascii_alphanumeric, lex_lt, only, parse_number, parse_unsigned, str_eq, str_lt, string_of,
    to_ascii_lowercase, to_ascii_upper, trim, trim_char, trimmed, whitespace_class,
};
use crate::sorted::{holds_text, insert_sorted, strictly_ordered};
use secrecy::ExposeSecret;
use vstd::prelude::*;

verus! {

/// A credential, held by `secrecy::SecretString`: it is wiped from memory
/// when it is dropped, it has no printed form, and only `expose` gives its
/// text. Verus cannot be told of the type itself, whose parameter is bound
/// by a trait of that crate, so nothing inside this struct is seen by it:
/// what it knows of a credential is `secret_text`.
#[verifier::external_body]
pub struct Secret {
    inner: secrecy::SecretString,
}

/// The text that a credential was made of, which `ExposeSecret::expose_secret`
/// gives back.
pub uninterp spec fn secret_text(secret: Secret) -> Seq<char>;

/// `SecretString::from` takes a text as a credential, and `expose_secret`
/// gives that text back.
#[verifier::external_body]
fn seal(text: String) -> (s: Secret)
    ensures
        secret_text(s) == text@,
{
    Secret { inner: secrecy::SecretString::from(text) }
}

/// `ExposeSecret::expose_secret` gives the text of a credential.
#[verifier::external_body]
fn unseal(secret: &Secret) -> (t: &str)
    ensures
        t@ == secret_text(*secret),
{
    secret.inner.expose_secret()
}

/// `SecretString::clone` copies a credential with its text.
#[verifier::external_body]
fn reseal(secret: &Secret) -> (s: Secret)
    ensures
        secret_text(s) == secret_text(*secret),
{
    Secret { inner: secret.inner.clone() }
}

impl Secret {
    /// The text of the credential.
    pub open spec fn text(&self) -> Seq<char> {
        secret_text(*self)
    }

    /// Seals `text`.
    pub fn new(text: String) -> (s: Secret)
        ensures
            s.text() == text@,
    {
        seal(text)
    }

    /// The text of the credential.
    pub fn expose(&self) -> (t: &str)
        ensures
            t@ == self.text(),
    {
        unseal(self)
    }

    /// A copy of the credential.
    pub fn duplicate(&self) -> (s: Secret)
        ensures
            s.text() == self.text(),
    {
        reseal(self)
    }
}

/// One account: where to connect and as whom.
pub struct AccountConfig {
    /// Account identifier, in lower case.
    pub account_id: String,
    /// Server host name.
    pub host: String,
    /// Server port.
    pub port: u16,
    /// Whether the transport is secured.
    pub secure: bool,
    /// Login name.
    pub user: String,
    /// Credential, sealed against accidental exposure.
    pub pass: Secret,
}

impl AccountConfig {
    /// A copy of the account.
    pub fn duplicate(&self) -> (r: AccountConfig)
        ensures
            r.account_id == self.account_id,
            r.host == self.host,
            r.port == self.port,
            r.secure == self.secure,
            r.user == self.user,
            r.pass.text() == self.pass.text(),
    {
        AccountConfig {
            account_id: self.account_id.clone(),
            host: self.host.clone(),
            port: self.port,
            secure: self.secure,
            user: self.user.clone(),
            pass: self.pass.duplicate(),
        }
    }
}

/// Settings of the whole server.
pub struct ServerConfig {
    /// The accounts, in the order of their identifiers.
    pub accounts: Vec<AccountConfig>,
    /// Whether tools that change a mailbox may run.
    pub write_enabled: bool,
    /// Deadline of the transport connect, in milliseconds.
    pub connect_timeout_ms: u64,
    /// Deadline shared by handshake, greeting and login, in milliseconds.
    pub greeting_timeout_ms: u64,
    /// Deadline of each later command, in milliseconds.
    pub socket_timeout_ms: u64,
    /// Seconds that a search cursor lives.
    pub cursor_ttl_seconds: u64,
    /// Largest number of search cursors kept.
    pub cursor_max_entries: usize,
}

/// Index of the first account with the identifier `id`, or `accounts.len()`.
pub open spec fn account_position(accounts: Seq<AccountConfig>, id: Seq<char>) -> int
    decreases accounts.len(),
{
    if accounts.len() == 0 || accounts[0].account_id@ == id {
        0
    } else {
        1 + account_position(accounts.drop_first(), id)
    }
}

/// Whether an account with the identifier `id` is configured.
pub open spec fn has_account(accounts: Seq<AccountConfig>, id: Seq<char>) -> bool {
    account_position(accounts, id) < accounts.len()
}

/// The message with which an unknown account is rejected.
pub open spec fn unknown_account_message(id: Seq<char>) -> Seq<char> {
    "account '"@ + id + "' is not configured"@
}

pub proof fn lemma_account_position(accounts: Seq<AccountConfig>, id: Seq<char>)
    ensures
        0 <= account_position(accounts, id) <= accounts.len(),
        has_account(accounts, id) ==> accounts[account_position(accounts, id)].account_id@ == id,
        forall|i: int|
            0 <= i < account_position(accounts, id) ==> (#[trigger] accounts[i]).account_id@ != id,
    decreases accounts.len(),
{
    if accounts.len() == 0 || accounts[0].account_id@ == id {
    } else {
        let t = accounts.drop_first();
        lemma_account_position(t, id);
        assert forall|i: int| 0 <= i < account_position(accounts, id) implies (
        #[trigger] accounts[i]).account_id@ != id by {
            if i > 0 {
                assert(accounts[i] == t[i - 1]);
            }
        }
    }
}

pub proof fn lemma_account_position_unique(accounts: Seq<AccountConfig>, id: Seq<char>, k: int)
    requires
        0 <= k <= accounts.len(),
        k < accounts.len() ==> accounts[k].account_id@ == id,
        forall|i: int| 0 <= i < k ==> (#[trigger] accounts[i]).account_id@ != id,
    ensures
        account_position(accounts, id) == k,
    decreases accounts.len(),
{
    if k > 0 {
        let t = accounts.drop_first();
        assert(accounts[0].account_id@ != id);
        assert forall|i: int| 0 <= i < k - 1 implies (#[trigger] t[i]).account_id@ != id by {
            assert(t[i] == accounts[i + 1]);
        }
        lemma_account_position_unique(t, id, k - 1);
    }
}

impl ServerConfig {
    /// The account with the identifier `account_id`, or `NotFound`.
    pub fn get_account(&self, account_id: &str) -> (r: AppResult<&AccountConfig>)
        ensures
            has_account(self.accounts@, account_id@) ==> r is Ok && *r->Ok_0
                == self.accounts@[account_position(self.accounts@, account_id@)],
            !has_account(self.accounts@, account_id@) ==> r is Err && r->Err_0 is NotFound
                && r->Err_0.message() == unknown_account_message(account_id@),
    {
        let id = account_id.to_owned();
        let mut i: usize = 0;
        while i < self.accounts.len() && !(self.accounts[i].account_id == id)
            invariant
                i <= self.accounts.len(),
                id@ == account_id@,
                forall|j: int| 0 <= j < i ==> (#[trigger] self.accounts@[j]).account_id@ != id@,
            decreases self.accounts.len() - i,
        {
            i += 1;
        }
        proof {
            lemma_account_position_unique(self.accounts@, account_id@, i as int);
        }
        if i < self.accounts.len() {
            Ok(&self.accounts[i])
        } else {
            Err(AppError::NotFound(concat3("account '", account_id, "' is not configured")))
        }
    }
}

/// What an environment holds under one name.
#[derive(Debug)]
pub enum EnvValue {
    /// Text.
    Text(String),
    /// Data that is no text.
    NotUnicode,
}

/// One variable of an environment.
#[derive(Debug)]
pub struct EnvVar {
    pub key: String,
    pub value: EnvValue,
}

/// Index of the first variable named `key`, or `env.len()`.
pub open spec fn env_position(env: Seq<EnvVar>, key: Seq<char>) -> int
    decreases env.len(),
{
    if env.len() == 0 || env[0].key@ == key {
        0
    } else {
        1 + env_position(env.drop_first(), key)
    }
}

/// What `env` holds under `key`, if anything.
pub open spec fn env_get(env: Seq<EnvVar>, key: Seq<char>) -> Option<EnvValue> {
    if env_position(env, key) < env.len() {
        Some(env[env_position(env, key)].value)
    } else {
        None
    }
}

pub proof fn lemma_env_position(env: Seq<EnvVar>, key: Seq<char>)
    ensures
        0 <= env_position(env, key) <= env.len(),
        env_position(env, key) < env.len() ==> env[env_position(env, key)].key@ == key,
    decreases env.len(),
{
    if env.len() == 0 || env[0].key@ == key {
    } else {
        lemma_env_position(env.drop_first(), key);
    }
}

pub proof fn lemma_env_position_unique(env: Seq<EnvVar>, key: Seq<char>, k: int)
    requires
        0 <= k <= env.len(),
        k < env.len() ==> env[k].key@ == key,
        forall|i: int| 0 <= i < k ==> (#[trigger] env[i]).key@ != key,
    ensures
        env_position(env, key) == k,
    decreases env.len(),
{
    if k > 0 {
        let t = env.drop_first();
        assert(env[0].key@ != key);
        assert forall|i: int| 0 <= i < k - 1 implies (#[trigger] t[i]).key@ != key by {
            assert(t[i] == env[i + 1]);
        }
        lemma_env_position_unique(t, key, k - 1);
    }
}

/// Looks `key` up in `env`.
pub fn lookup_env<'a>(env: &'a Vec<EnvVar>, key: &str) -> (r: Option<&'a EnvValue>)
    ensures
        match env_get(env@, key@) {
            Some(v) => r is Some && *r->Some_0 == v,
            None => r is None,
        },
{
    let k = key.to_owned();
    let mut i: usize = 0;
    while i < env.len() && !(env[i].key == k)
        invariant
            i <= env.len(),
            k@ == key@,
            forall|j: int| 0 <= j < i ==> (#[trigger] env@[j]).key@ != key@,
        decreases env.len() - i,
    {
        i += 1;
    }
    proof {
        lemma_env_position_unique(env@, key@, i as int);
    }
    if i < env.len() {
        Some(&env[i].value)
    } else {
        None
    }
}

// ---------------------------------------------------------------------------
// Values
// ---------------------------------------------------------------------------

/// The truth value that a text denotes: `1`, `true`, `yes`, `y`, `on` for
/// true and `0`, `false`, `no`, `n`, `off` for false, in any letter case and
/// with any white space around.
pub open spec fn bool_of(value: Seq<char>) -> Option<bool> {
    let w = ascii_lower(trimmed(value, whitespace_class()));
    if w == "1"@ || w == "true"@ || w == "yes"@ || w == "y"@ || w == "on"@ {
        Some(true)
    } else if w == "0"@ || w == "false"@ || w == "no"@ || w == "n"@ || w == "off"@ {
        Some(false)
    } else {
        None
    }
}

/// Reads a truth value.
pub fn parse_bool_value(value: &str) -> (r: Option<bool>)
    ensures
        r == bool_of(value@),
{
    let t = trim(value);
    let w = to_ascii_lowercase(t.as_str());
    let w = w.as_str();
    if str_eq(w, "1") || str_eq(w, "true") || str_eq(w, "yes") || str_eq(w, "y") || str_eq(
        w,
        "on",
    ) {
        Some(true)
    } else if str_eq(w, "0") || str_eq(w, "false") || str_eq(w, "no") || str_eq(w, "n") || str_eq(
        w,
        "off",
    ) {
        Some(false)
    } else {
        None
    }
}

/// One character of a sanitized segment: letters and digits in upper case,
/// an underscore for everything else.
pub open spec fn sanitize_char(c: char) -> char {
    if is_ascii_alphanumeric(c) {
        to_ascii_upper(c)
    } else {
        '_'
    }
}

/// The sanitized form of an account segment: every character sanitized, then
/// the underscores at both ends taken away.
pub open spec fn sanitized(seg: Seq<char>) -> Seq<char> {
    trimmed(Seq::new(seg.len(), |i: int| sanitize_char(seg[i])), only('_'))
}

/// Sanitizes an account segment.
pub fn sanitize_segment(seg: &str) -> (r: String)
    ensures
        r@ == sanitized(seg@),
{
    let v = chars_of(seg);
    let ghost mapped = Seq::new(seg@.len(), |i: int| sanitize_char(seg@[i]));
    let mut out = String::new();
    let mut i: usize = 0;
    while i < v.len()
        invariant
            i <= v.len(),
            v@ == seg@,
            mapped == Seq::new(seg@.len(), |i: int| sanitize_char(seg@[i])),
            out@ == mapped.take(i as int),
        decreases v.len() - i,
    {
        let c = v[i];
        if char_is_ascii_alphanumeric(c) {
            out.push(char_to_ascii_upper(c));
        } else {
            out.push('_');
        }
        i += 1;
        assert(mapped.take(i as int) == mapped.take(i - 1).push(mapped[i - 1]));
    }
    assert(mapped.take(v.len() as int) == mapped);
    trim_char(out.as_str(), '_')
}

/// A text is blank when nothing but white space is in it.
pub open spec fn blank(value: Seq<char>) -> bool {
    trimmed(value, whitespace_class()).len() == 0
}

/// The message for a variable that holds data that is no text.
pub open spec fn not_unicode_message(key: Seq<char>) -> Seq<char> {
    "environment variable "@ + key + " contains non-unicode data"@
}

/// The message for a variable that must be set and is not.
pub open spec fn missing_message(key: Seq<char>) -> Seq<char> {
    "missing required environment variable "@ + key
}

/// The message for a variable whose text is not of the kind `kind`.
pub open spec fn invalid_message(kind: Seq<char>, key: Seq<char>, value: Seq<char>) -> Seq<char> {
    "invalid "@ + kind + " environment variable "@ + key + ": '"@ + value + "'"@
}

/// The text of a variable that must be set: an error if it is unset, no
/// text, or blank.
pub fn required_env(env: &Vec<EnvVar>, key: &str) -> (r: AppResult<String>)
    ensures
        match env_get(env@, key@) {
            Some(EnvValue::Text(v)) if !blank(v@) => r is Ok && r->Ok_0@ == v@,
            _ => r is Err && r->Err_0 is InvalidInput && r->Err_0.message() == missing_message(
                key@,
            ),
        },
{
    match lookup_env(env, key) {
        Some(EnvValue::Text(v)) => {
            let t = trim(v.as_str());
            if t.as_str().unicode_len() > 0 {
                return Ok(v.clone());
            }
        },
        _ => {},
    }
    Err(AppError::InvalidInput(concat2("missing required environment variable ", key)))
}

fn invalid_value(kind: &str, key: &str, value: &str) -> (e: AppError)
    ensures
        e is InvalidInput,
        e.message() == invalid_message(kind@, key@, value@),
{
    let mut m = concat3("invalid ", kind, " environment variable ");
    m.append(key);
    m.append(": '");
    m.append(value);
    m.append("'");
    AppError::InvalidInput(m)
}

fn not_unicode(key: &str) -> (e: AppError)
    ensures
        e is InvalidInput,
        e.message() == not_unicode_message(key@),
{
    AppError::InvalidInput(concat3("environment variable ", key, " contains non-unicode data"))
}

/// The truth value of a variable, `default` if it is unset.
pub fn parse_bool_env(env: &Vec<EnvVar>, key: &str, default: bool) -> (r: AppResult<bool>)
    ensures
        match env_get(env@, key@) {
            None => r == Ok::<bool, AppError>(default),
            Some(EnvValue::NotUnicode) => r is Err && r->Err_0 is InvalidInput
                && r->Err_0.message() == not_unicode_message(key@),
            Some(EnvValue::Text(v)) => match bool_of(v@) {
                Some(b) => r == Ok::<bool, AppError>(b),
                None => r is Err && r->Err_0 is InvalidInput && r->Err_0.message()
                    == invalid_message("boolean"@, key@, v@),
            },
        },
{
    match lookup_env(env, key) {
        None => Ok(default),
        Some(EnvValue::NotUnicode) => Err(not_unicode(key)),
        Some(EnvValue::Text(v)) => match parse_bool_value(v.as_str()) {
            Some(b) => Ok(b),
            None => Err(invalid_value("boolean", key, v.as_str())),
        },
    }
}

/// The number of a variable, `default` if it is unset. The number is an
/// unsigned numeral of at most `max`, and `kind` names its type in the error
/// message.
pub fn parse_number_env(env: &Vec<EnvVar>, key: &str, default: u64, max: u64, kind: &str) -> (r:
    AppResult<u64>)
    ensures
        match env_get(env@, key@) {
            None => r == Ok::<u64, AppError>(default),
            Some(EnvValue::NotUnicode) => r is Err && r->Err_0 is InvalidInput
                && r->Err_0.message() == not_unicode_message(key@),
            Some(EnvValue::Text(v)) => match parse_unsigned(v@, max as nat) {
                Some(n) => r is Ok && r->Ok_0 == n,
                None => r is Err && r->Err_0 is InvalidInput && r->Err_0.message()
                    == invalid_message(kind@, key@, v@),
            },
        },
{
    match lookup_env(env, key) {
        None => Ok(default),
        Some(EnvValue::NotUnicode) => Err(not_unicode(key)),
        Some(EnvValue::Text(v)) => match parse_number(v.as_str(), max) {
            Some(n) => Ok(n),
            None => Err(invalid_value(kind, key, v.as_str())),
        },
    }
}

/// The `u16` of a variable, `default` if it is unset.
pub fn parse_u16_env(env: &Vec<EnvVar>, key: &str, default: u16) -> (r: AppResult<u16>)
    ensures
        match env_get(env@, key@) {
            None => r == Ok::<u16, AppError>(default),
            Some(EnvValue::NotUnicode) => r is Err && r->Err_0 is InvalidInput
                && r->Err_0.message() == not_unicode_message(key@),
            Some(EnvValue::Text(v)) => match parse_unsigned(v@, u16::MAX as nat) {
                Some(n) => r is Ok && r->Ok_0 == n,
                None => r is Err && r->Err_0 is InvalidInput && r->Err_0.message()
                    == invalid_message("u16"@, key@, v@),
            },
        },
{
    match parse_number_env(env, key, default as u64, 0xffff, "u16") {
        Ok(n) => Ok(n as u16),
        Err(e) => Err(e),
    }
}

/// The `u64` of a variable, `default` if it is unset.
pub fn parse_u64_env(env: &Vec<EnvVar>, key: &str, default: u64) -> (r: AppResult<u64>)
    ensures
        match env_get(env@, key@) {
            None => r == Ok::<u64, AppError>(default),
            Some(EnvValue::NotUnicode) => r is Err && r->Err_0 is InvalidInput
                && r->Err_0.message() == not_unicode_message(key@),
            Some(EnvValue::Text(v)) => match parse_unsigned(v@, u64::MAX as nat) {
                Some(n) => r is Ok && r->Ok_0 == n,
                None => r is Err && r->Err_0 is InvalidInput && r->Err_0.message()
                    == invalid_message("u64"@, key@, v@),
            },
        },
{
    parse_number_env(env, key, default, u64::MAX, "u64")
}

/// The `usize` of a variable, `default` if it is unset.
pub fn parse_usize_env(env: &Vec<EnvVar>, key: &str, default: usize) -> (r: AppResult<usize>)
    ensures
        match env_get(env@, key@) {
            None => r == Ok::<usize, AppError>(default),
            Some(EnvValue::NotUnicode) => r is Err && r->Err_0 is InvalidInput
                && r->Err_0.message() == not_unicode_message(key@),
            Some(EnvValue::Text(v)) => match parse_unsigned(v@, usize::MAX as nat) {
                Some(n) => r is Ok && r->Ok_0 == n,
                None => r is Err && r->Err_0 is InvalidInput && r->Err_0.message()
                    == invalid_message("usize"@, key@, v@),
            },
        },
{
    match parse_number_env(env, key, default as u64, usize::MAX as u64, "usize") {
        Ok(n) => Ok(n as usize),
        Err(e) => Err(e),
    }
}

// ---------------------------------------------------------------------------
// Loading
// ---------------------------------------------------------------------------

/// The text of a variable that must be set, or the message that says that
/// it is missing.
pub open spec fn required_value(env: Seq<EnvVar>, key: Seq<char>) -> Result<Seq<char>, Seq<char>> {
    match env_get(env, key) {
        Some(EnvValue::Text(v)) if !blank(v@) => Ok(v@),
        _ => Err(missing_message(key)),
    }
}

/// The truth value of a variable, or the message that rejects it.
pub open spec fn bool_value(env: Seq<EnvVar>, key: Seq<char>, default: bool) -> Result<
    bool,
    Seq<char>,
> {
    match env_get(env, key) {
        None => Ok(default),
        Some(EnvValue::NotUnicode) => Err(not_unicode_message(key)),
        Some(EnvValue::Text(v)) => match bool_of(v@) {
            Some(b) => Ok(b),
            None => Err(invalid_message("boolean"@, key, v@)),
        },
    }
}

/// The number of a variable, or the message that rejects it.
pub open spec fn number_value(
    env: Seq<EnvVar>,
    key: Seq<char>,
    default: nat,
    max: nat,
    kind: Seq<char>,
) -> Result<nat, Seq<char>> {
    match env_get(env, key) {
        None => Ok(default),
        Some(EnvValue::NotUnicode) => Err(not_unicode_message(key)),
        Some(EnvValue::Text(v)) => match parse_unsigned(v@, max) {
            Some(n) => Ok(n),
            None => Err(invalid_message(kind, key, v@)),
        },
    }
}

/// Mathematical value of an `AccountConfig`.
pub struct AccountView {
    pub account_id: Seq<char>,
    pub host: Seq<char>,
    pub port: u16,
    pub secure: bool,
    pub user: Seq<char>,
    pub pass: Seq<char>,
}

/// The mathematical value of an account.
pub open spec fn account_view(a: AccountConfig) -> AccountView {
    AccountView {
        account_id: a.account_id@,
        host: a.host@,
        port: a.port,
        secure: a.secure,
        user: a.user@,
        pass: a.pass.text(),
    }
}

/// The prefix of the variables of the account section `segment`.
pub open spec fn section_prefix(segment: Seq<char>) -> Seq<char> {
    "MAIL_IMAP_"@ + sanitized(segment) + "_"@
}

/// The account that the environment describes under the section
/// `segment`, or the message of the first of its variables that is missing
/// or malformed. Host, user and credential must be set; the port is 993 and
/// the transport secured unless the environment says otherwise. The account
/// is named by the section in lower case.
pub open spec fn account_spec(env: Seq<EnvVar>, segment: Seq<char>) -> Result<AccountView, Seq<char>> {
    let prefix = section_prefix(segment);
    match required_value(env, prefix + "HOST"@) {
        Err(m) => Err(m),
        Ok(host) => match required_value(env, prefix + "USER"@) {
            Err(m) => Err(m),
            Ok(user) => match required_value(env, prefix + "PASS"@) {
                Err(m) => Err(m),
                Ok(pass) => match number_value(env, prefix + "PORT"@, 993, u16::MAX as nat, "u16"@) {
                    Err(m) => Err(m),
                    Ok(port) => match bool_value(env, prefix + "SECURE"@, true) {
                        Err(m) => Err(m),
                        Ok(secure) => Ok(
                            AccountView {
                                account_id: ascii_lower(segment),
                                host,
                                port: port as u16,
                                secure,
                                user,
                                pass,
                            },
                        ),
                    },
                },
            },
        },
    }
}

/// `r` is the outcome `want` of reading an account: the account, or an
/// `InvalidInput` with the message.
pub open spec fn account_read(r: AppResult<AccountConfig>, want: Result<AccountView, Seq<char>>) -> bool {
    match want {
        Ok(a) => r is Ok && account_view(r->Ok_0) == a,
        Err(m) => r is Err && r->Err_0 is InvalidInput && r->Err_0.message() == m,
    }
}

/// Reads the account of the section `segment` from the environment.
pub fn load_account(env: &Vec<EnvVar>, segment: &str) -> (r: AppResult<AccountConfig>)
    ensures
        account_read(r, account_spec(env@, segment@)),
{
    let prefix = concat3("MAIL_IMAP_", sanitize_segment(segment).as_str(), "_");
    let host = match required_env(env, concat2(prefix.as_str(), "HOST").as_str()) {
        Ok(v) => v,
        Err(e) => {
            return Err(e);
        },
    };
    let user = match required_env(env, concat2(prefix.as_str(), "USER").as_str()) {
        Ok(v) => v,
        Err(e) => {
            return Err(e);
        },
    };
    let pass = match required_env(env, concat2(prefix.as_str(), "PASS").as_str()) {
        Ok(v) => v,
        Err(e) => {
            return Err(e);
        },
    };
    let port = match parse_u16_env(env, concat2(prefix.as_str(), "PORT").as_str(), 993) {
        Ok(v) => v,
        Err(e) => {
            return Err(e);
        },
    };
    let secure = match parse_bool_env(env, concat2(prefix.as_str(), "SECURE").as_str(), true) {
        Ok(v) => v,
        Err(e) => {
            return Err(e);
        },
    };
    Ok(
        AccountConfig {
            account_id: to_ascii_lowercase(segment),
            host,
            port,
            secure,
            user,
            pass: Secret::new(pass),
        },
    )
}

/// A character of an account section in a host key: an upper-case letter, a
/// digit or an underscore.
pub open spec fn segment_char(c: char) -> bool {
    ('A' <= c && c <= 'Z') || ('0' <= c && c <= '9') || c == '_'
}

/// The account section that a host key names: what stands between
/// `MAIL_IMAP_` and `_HOST`, if it is not empty and made of upper-case
/// letters, digits and underscores.
pub open spec fn host_segment(key: Seq<char>) -> Option<Seq<char>> {
    let section = key.subrange(10, key.len() - 5);
    if key.len() > 15 && key.subrange(0, 10) == "MAIL_IMAP_"@ && key.subrange(
        key.len() - 5,
        key.len() as int,
    ) == "_HOST"@ && (forall|i: int| 0 <= i < section.len() ==> segment_char(#[trigger] section[i])) {
        Some(section)
    } else {
        None
    }
}

/// The account section that a host key names, if the key is one.
pub fn host_segment_of(key: &str) -> (r: Option<String>)
    ensures
        match host_segment(key@) {
            Some(section) => r is Some && r->Some_0@ == section,
            None => r is None,
        },
{
    let v = chars_of(key);
    let n = v.len();
    if n <= 15 {
        return None;
    }
    if !crate::text::slice_is(&v, 0, 10, "MAIL_IMAP_") || !crate::text::slice_is(
        &v,
        n - 5,
        n,
        "_HOST",
    ) {
        return None;
    }
    let ghost section = key@.subrange(10, n - 5);
    let mut i: usize = 10;
    while i < n - 5
        invariant
            10 <= i <= n - 5,
            n == v.len(),
            v@ == key@,
            section == key@.subrange(10, n - 5),
            forall|k: int| 0 <= k < i - 10 ==> segment_char(#[trigger] section[k]),
        decreases n - i,
    {
        let c = v[i];
        if !(('A' <= c && c <= 'Z') || ('0' <= c && c <= '9') || c == '_') {
            assert(!segment_char(section[i - 10]));
            return None;
        }
        i += 1;
    }
    Some(string_of(&v, 10, n - 5))
}

/// The text `t` is the account section of some host key of `env`.
pub open spec fn is_host_segment(env: Seq<EnvVar>, t: Seq<char>) -> bool {
    exists|i: int| 0 <= i < env.len() && host_segment((#[trigger] env[i]).key@) == Some(t)
}

/// The environment names no account section.
pub open spec fn no_host_segment(env: Seq<EnvVar>) -> bool {
    forall|i: int| 0 <= i < env.len() ==> host_segment((#[trigger] env[i]).key@) is None
}

/// The account sections of an environment, each once and in the order of
/// strings: those that its host keys name, or `DEFAULT` if they name none.
pub open spec fn sections_found(sections: Seq<String>, env: Seq<EnvVar>) -> bool {
    &&& strictly_ordered(sections)
    &&& forall|t: Seq<char>|
        holds_text(sections, t) <==> (is_host_segment(env, t) || (no_host_segment(env) && t
            == "DEFAULT"@))
}

/// Finds the account sections of an environment.
pub fn account_segments(env: &Vec<EnvVar>) -> (sections: Vec<String>)
    ensures
        sections_found(sections@, env@),
{
    let mut sections: Vec<String> = Vec::new();
    let mut i: usize = 0;
    while i < env.len()
        invariant
            i <= env.len(),
            strictly_ordered(sections@),
            forall|t: Seq<char>|
                holds_text(sections@, t) <==> is_host_segment(env@.take(i as int), t),
        decreases env.len() - i,
    {
        let found = host_segment_of(env[i].key.as_str());
        if let Some(s) = found {
            insert_sorted(&mut sections, s);
        }
        proof {
            let head = env@.take(i as int);
            let more = env@.take(i + 1);
            assert forall|t: Seq<char>| holds_text(sections@, t) <==> is_host_segment(more, t) by {
                if is_host_segment(more, t) {
                    let k = choose|k: int|
                        0 <= k < more.len() && host_segment((#[trigger] more[k]).key@) == Some(t);
                    if k < i {
                        assert(head[k] == more[k]);
                        assert(is_host_segment(head, t));
                    }
                }
                if is_host_segment(head, t) {
                    let k = choose|k: int|
                        0 <= k < head.len() && host_segment((#[trigger] head[k]).key@) == Some(t);
                    assert(more[k] == head[k]);
                }
                if host_segment(env@[i as int].key@) == Some(t) {
                    assert(more[i as int] == env@[i as int]);
                }
            }
        }
        i += 1;
    }
    assert(env@.take(env.len() as int) =~= env@);
    if sections.len() == 0 {
        proof {
            assert forall|k: int| 0 <= k < env@.len() implies host_segment(
                (#[trigger] env@[k]).key@,
            ) is None by {
                if host_segment(env@[k].key@) is Some {
                    let t = host_segment(env@[k].key@)->Some_0;
                    assert(is_host_segment(env@, t));
                    assert(holds_text(sections@, t));
                }
            }
        }
        sections.push("DEFAULT".to_owned());
        proof {
            assert forall|t: Seq<char>| holds_text(sections@, t) <==> (is_host_segment(env@, t) || (
            no_host_segment(env@) && t == "DEFAULT"@)) by {
                if holds_text(sections@, t) {
                    let k = choose|k: int| 0 <= k < sections@.len() && (#[trigger] sections@[k])@ == t;
                    assert(k == 0);
                }
                if t == "DEFAULT"@ {
                    assert(sections@[0]@ == t);
                }
                if is_host_segment(env@, t) {
                    let k = choose|k: int|
                        0 <= k < env@.len() && host_segment((#[trigger] env@[k]).key@) == Some(t);
                    assert(host_segment(env@[k].key@) is None);
                }
            }
        }
    } else {
        proof {
            let t0 = sections@[0]@;
            assert(holds_text(sections@, t0));
            assert(is_host_segment(env@, t0));
            let k = choose|k: int|
                0 <= k < env@.len() && host_segment((#[trigger] env@[k]).key@) == Some(t0);
            assert(!no_host_segment(env@));
        }
    }
    sections
}

/// The accounts of `accounts` stand in the order of their identifiers, each
/// identifier once.
pub open spec fn accounts_ordered(accounts: Seq<AccountConfig>) -> bool {
    forall|i: int, j: int|
        0 <= i < j < accounts.len() ==> lex_lt(accounts[i].account_id@, accounts[j].account_id@)
}

/// Puts `account` into the ordered list `accounts`, in place of an account
/// of the same identifier if there is one.
pub fn insert_account(accounts: &mut Vec<AccountConfig>, account: AccountConfig)
    requires
        accounts_ordered(old(accounts)@),
    ensures
        accounts_ordered(final(accounts)@),
        final(accounts)@.contains(account),
        forall|k: int|
            0 <= k < final(accounts)@.len() ==> (#[trigger] final(accounts)@[k]) == account || old(
                accounts,
            )@.contains(final(accounts)@[k]),
        forall|k: int|
            0 <= k < old(accounts)@.len() && (#[trigger] old(accounts)@[k]).account_id@
                != account.account_id@ ==> final(accounts)@.contains(old(accounts)@[k]),
{
    let mut i: usize = 0;
    while i < accounts.len() && str_lt(accounts[i].account_id.as_str(), account.account_id.as_str())
        invariant
            i <= accounts.len(),
            accounts@ == old(accounts)@,
            forall|k: int|
                0 <= k < i ==> lex_lt((#[trigger] accounts@[k]).account_id@, account.account_id@),
        decreases accounts.len() - i,
    {
        i += 1;
    }
    let ghost before = accounts@;
    if i < accounts.len() && !str_lt(account.account_id.as_str(), accounts[i].account_id.as_str()) {
        proof {
            crate::sorted::lemma_lex_total(account.account_id@, before[i as int].account_id@);
        }
        let _ = accounts.remove(i);
    }
    let ghost mid = accounts@;
    accounts.insert(i, account);
    proof {
        let after = accounts@;
        assert(after[i as int] == account);
        assert forall|k: int| 0 <= k < mid.len() implies before.contains(#[trigger] mid[k]) && (k
            < i ==> mid[k] == before[k]) && (k >= i ==> lex_lt(
            account.account_id@,
            mid[k].account_id@,
        )) by {
            if mid.len() == before.len() {
                assert(mid[k] == before[k]);
                if k >= i {
                    crate::sorted::lemma_lex_total(account.account_id@, before[i as int].account_id@);
                    if k > i {
                        crate::sorted::lemma_lex_transitive(
                            account.account_id@,
                            before[i as int].account_id@,
                            before[k].account_id@,
                        );
                    }
                }
            } else {
                if k < i {
                    assert(mid[k] == before[k]);
                } else {
                    assert(mid[k] == before[k + 1]);
                }
            }
        }
        assert forall|a: int, b: int| 0 <= a < b < after.len() implies lex_lt(
            after[a].account_id@,
            after[b].account_id@,
        ) by {
            if b == i {
                assert(after[a] == mid[a]);
            } else if a == i {
                assert(after[b] == mid[b - 1]);
            } else {
                let x = if a < i {
                    a
                } else {
                    a - 1
                };
                let y = if b < i {
                    b
                } else {
                    b - 1
                };
                assert(after[a] == mid[x]);
                assert(after[b] == mid[y]);
                if mid.len() == before.len() {
                } else {
                    let x2 = if x < i {
                        x
                    } else {
                        x + 1
                    };
                    let y2 = if y < i {
                        y
                    } else {
                        y + 1
                    };
                    assert(mid[x] == before[x2]);
                    assert(mid[y] == before[y2]);
                }
            }
        }
        assert forall|k: int| 0 <= k < after.len() implies (#[trigger] after[k]) == account
            || before.contains(after[k]) by {
            if k < i {
                assert(after[k] == mid[k]);
            } else if k > i {
                assert(after[k] == mid[k - 1]);
            }
        }
        assert forall|k: int|
            0 <= k < before.len() && (#[trigger] before[k]).account_id@
                != account.account_id@ implies after.contains(before[k]) by {
            if mid.len() == before.len() {
                if k < i {
                    assert(after[k] == before[k]);
                } else {
                    assert(after[k + 1] == before[k]);
                }
            } else {
                if k < i {
                    assert(after[k] == before[k]);
                } else if k > i {
                    assert(mid[k - 1] == before[k]);
                    assert(after[k] == before[k]);
                }
            }
        }
    }
}

/// Index of the first section of `sections` whose account cannot be read,
/// or `sections.len()`.
pub open spec fn first_unreadable(env: Seq<EnvVar>, sections: Seq<String>) -> int
    decreases sections.len(),
{
    if sections.len() == 0 || account_spec(env, sections[0]@) is Err {
        0
    } else {
        1 + first_unreadable(env, sections.drop_first())
    }
}

pub proof fn lemma_first_unreadable_unique(env: Seq<EnvVar>, sections: Seq<String>, k: int)
    requires
        0 <= k <= sections.len(),
        k < sections.len() ==> account_spec(env, sections[k]@) is Err,
        forall|i: int| 0 <= i < k ==> account_spec(env, (#[trigger] sections[i])@) is Ok,
    ensures
        first_unreadable(env, sections) == k,
    decreases sections.len(),
{
    if k > 0 {
        let t = sections.drop_first();
        assert(account_spec(env, sections[0]@) is Ok);
        assert forall|i: int| 0 <= i < k - 1 implies account_spec(env, (#[trigger] t[i])@) is Ok by {
            assert(t[i] == sections[i + 1]);
        }
        lemma_first_unreadable_unique(env, t, k - 1);
    }
}

/// The settings of the whole server that the environment gives, or the
/// message of the first of them that is malformed: the write gate (closed
/// unless opened), the three deadlines and the two bounds of the cursor
/// store.
pub open spec fn globals_spec(env: Seq<EnvVar>) -> Result<(bool, nat, nat, nat, nat, nat), Seq<char>> {
    match bool_value(env, "MAIL_IMAP_WRITE_ENABLED"@, false) {
        Err(m) => Err(m),
        Ok(write_enabled) => match number_value(
            env,
            "MAIL_IMAP_CONNECT_TIMEOUT_MS"@,
            30_000,
            u64::MAX as nat,
            "u64"@,
        ) {
            Err(m) => Err(m),
            Ok(connect) => match number_value(
                env,
                "MAIL_IMAP_GREETING_TIMEOUT_MS"@,
                15_000,
                u64::MAX as nat,
                "u64"@,
            ) {
                Err(m) => Err(m),
                Ok(greeting) => match number_value(
                    env,
                    "MAIL_IMAP_SOCKET_TIMEOUT_MS"@,
                    300_000,
                    u64::MAX as nat,
                    "u64"@,
                ) {
                    Err(m) => Err(m),
                    Ok(socket) => match number_value(
                        env,
                        "MAIL_IMAP_CURSOR_TTL_SECONDS"@,
                        600,
                        u64::MAX as nat,
                        "u64"@,
                    ) {
                        Err(m) => Err(m),
                        Ok(ttl) => match number_value(
                            env,
                            "MAIL_IMAP_CURSOR_MAX_ENTRIES"@,
                            512,
                            usize::MAX as nat,
                            "usize"@,
                        ) {
                            Err(m) => Err(m),
                            Ok(max) => Ok((write_enabled, connect, greeting, socket, ttl, max)),
                        },
                    },
                },
            },
        },
    }
}

/// The accounts `accounts` are those of the sections `sections`: for each
/// section there is an account named by it in lower case, and each account
/// is what the environment describes under one of the sections.
pub open spec fn accounts_of(accounts: Seq<AccountConfig>, env: Seq<EnvVar>, sections: Seq<String>) -> bool {
    &&& accounts_ordered(accounts)
    &&& forall|i: int|
        0 <= i < sections.len() ==> has_account(accounts, ascii_lower((#[trigger] sections[i])@))
    &&& forall|k: int|
        0 <= k < accounts.len() ==> read_from(#[trigger] accounts[k], env, sections)
}

/// The account `account` is what the environment describes under one of
/// the sections `sections`.
pub open spec fn read_from(account: AccountConfig, env: Seq<EnvVar>, sections: Seq<String>) -> bool {
    exists|i: int|
        0 <= i < sections.len() && account_spec(env, (#[trigger] sections[i])@) == Ok::<
            AccountView,
            Seq<char>,
        >(account_view(account))
}

/// An account of `accounts` is named `id`.
pub proof fn lemma_has_account(accounts: Seq<AccountConfig>, id: Seq<char>, k: int)
    requires
        0 <= k < accounts.len(),
        accounts[k].account_id@ == id,
    ensures
        has_account(accounts, id),
    decreases accounts.len(),
{
    if accounts[0].account_id@ == id {
    } else {
        let t = accounts.drop_first();
        assert(t[k - 1] == accounts[k]);
        lemma_has_account(t, id, k - 1);
    }
}

/// The accounts of some sections, with the account of one more section put
/// in, are the accounts of all these sections.
proof fn lemma_accounts_grow(
    env: Seq<EnvVar>,
    sections: Seq<String>,
    i: int,
    before: Seq<AccountConfig>,
    after: Seq<AccountConfig>,
    account: AccountConfig,
)
    requires
        0 <= i < sections.len(),
        accounts_of(before, env, sections.take(i)),
        account_spec(env, sections[i]@) == Ok::<AccountView, Seq<char>>(account_view(account)),
        accounts_ordered(after),
        after.contains(account),
        forall|k: int|
            0 <= k < after.len() ==> (#[trigger] after[k]) == account || before.contains(after[k]),
        forall|k: int|
            0 <= k < before.len() && (#[trigger] before[k]).account_id@ != account.account_id@
                ==> after.contains(before[k]),
    ensures
        accounts_of(after, env, sections.take(i + 1)),
{
    let head = sections.take(i);
    let more = sections.take(i + 1);
    assert(more[i] == sections[i]);
    assert forall|j: int| 0 <= j < more.len() implies has_account(
        after,
        ascii_lower((#[trigger] more[j])@),
    ) by {
        let id = ascii_lower(more[j]@);
        if j == i {
            let k = choose|k: int| 0 <= k < after.len() && after[k] == account;
            lemma_has_account(after, id, k);
        } else {
            assert(more[j] == head[j]);
            lemma_account_position(before, id);
            let k0 = account_position(before, id);
            if before[k0].account_id@ == account.account_id@ {
                let k = choose|k: int| 0 <= k < after.len() && after[k] == account;
                lemma_has_account(after, id, k);
            } else {
                assert(after.contains(before[k0]));
                let k = choose|k: int| 0 <= k < after.len() && after[k] == before[k0];
                lemma_has_account(after, id, k);
            }
        }
    }
    assert forall|k: int| 0 <= k < after.len() implies read_from(
        #[trigger] after[k],
        env,
        more,
    ) by {
        if after[k] == account {
            assert(account_spec(env, more[i]@) == Ok::<AccountView, Seq<char>>(
                account_view(after[k]),
            ));
        } else {
            assert(before.contains(after[k]));
            let k0 = choose|k0: int| 0 <= k0 < before.len() && before[k0] == after[k];
            assert(read_from(before[k0], env, head));
            let j = choose|j: int|
                0 <= j < head.len() && account_spec(env, (#[trigger] head[j])@) == Ok::<
                    AccountView,
                    Seq<char>,
                >(account_view(before[k0]));
            assert(more[j] == head[j]);
            assert(account_spec(env, more[j]@) == Ok::<AccountView, Seq<char>>(
                account_view(after[k]),
            ));
        }
    }
}

/// `r` is what the environment `env` with the account sections `sections`
/// yields: the settings, or an `InvalidInput` for the first section, in
/// their order, whose account cannot be read, or else for the first setting
/// of the whole server that is malformed.
pub open spec fn config_loaded(r: AppResult<ServerConfig>, env: Seq<EnvVar>, sections: Seq<String>) -> bool {
    let k = first_unreadable(env, sections);
    if k < sections.len() {
        r is Err && r->Err_0 is InvalidInput && r->Err_0.message() == account_spec(
            env,
            sections[k]@,
        )->Err_0
    } else {
        match globals_spec(env) {
            Err(m) => r is Err && r->Err_0 is InvalidInput && r->Err_0.message() == m,
            Ok(g) => {
                &&& r is Ok
                &&& accounts_of(r->Ok_0.accounts@, env, sections)
                &&& r->Ok_0.write_enabled == g.0
                &&& r->Ok_0.connect_timeout_ms == g.1
                &&& r->Ok_0.greeting_timeout_ms == g.2
                &&& r->Ok_0.socket_timeout_ms == g.3
                &&& r->Ok_0.cursor_ttl_seconds == g.4
                &&& r->Ok_0.cursor_max_entries == g.5
            },
        }
    }
}

impl ServerConfig {
    /// Reads the settings from an environment. The account sections are
    /// those that `account_segments` finds.
    pub fn load_from_env(env: &Vec<EnvVar>) -> (r: AppResult<ServerConfig>)
        ensures
            exists|sections: Seq<String>|
                #![trigger config_loaded(r, env@, sections)]
                sections_found(sections, env@) && config_loaded(r, env@, sections),
    {
        let sections = account_segments(env);
        let mut accounts: Vec<AccountConfig> = Vec::new();
        let mut i: usize = 0;
        while i < sections.len()
            invariant
                i <= sections.len(),
                accounts_ordered(accounts@),
                forall|j: int| 0 <= j < i ==> account_spec(env@, (#[trigger] sections@[j])@) is Ok,
                accounts_of(accounts@, env@, sections@.take(i as int)),
                sections_found(sections@, env@),
            decreases sections.len() - i,
        {
            let account = match load_account(env, sections[i].as_str()) {
                Ok(a) => a,
                Err(e) => {
                    proof {
                        lemma_first_unreadable_unique(env@, sections@, i as int);
                    }
                    let r = Err(e);
                    assert(config_loaded(r, env@, sections@));
                    return r;
                },
            };
            let ghost before = accounts@;
            insert_account(&mut accounts, account);
            proof {
                lemma_accounts_grow(env@, sections@, i as int, before, accounts@, account);
            }
            i += 1;
        }
        proof {
            assert(sections@.take(sections.len() as int) =~= sections@);
            lemma_first_unreadable_unique(env@, sections@, sections@.len() as int);
        }
        let write_enabled = match parse_bool_env(env, "MAIL_IMAP_WRITE_ENABLED", false) {
            Ok(v) => v,
            Err(e) => {
                let r = Err(e);
                assert(config_loaded(r, env@, sections@));
                return r;
            },
        };
        let connect_timeout_ms = match parse_u64_env(env, "MAIL_IMAP_CONNECT_TIMEOUT_MS", 30_000) {
            Ok(v) => v,
            Err(e) => {
                let r = Err(e);
                assert(config_loaded(r, env@, sections@));
                return r;
            },
        };
        let greeting_timeout_ms = match parse_u64_env(env, "MAIL_IMAP_GREETING_TIMEOUT_MS", 15_000) {
            Ok(v) => v,
            Err(e) => {
                let r = Err(e);
                assert(config_loaded(r, env@, sections@));
                return r;
            },
        };
        let socket_timeout_ms = match parse_u64_env(env, "MAIL_IMAP_SOCKET_TIMEOUT_MS", 300_000) {
            Ok(v) => v,
            Err(e) => {
                let r = Err(e);
                assert(config_loaded(r, env@, sections@));
                return r;
            },
        };
        let cursor_ttl_seconds = match parse_u64_env(env, "MAIL_IMAP_CURSOR_TTL_SECONDS", 600) {
            Ok(v) => v,
            Err(e) => {
                let r = Err(e);
                assert(config_loaded(r, env@, sections@));
                return r;
            },
        };
        let cursor_max_entries = match parse_usize_env(env, "MAIL_IMAP_CURSOR_MAX_ENTRIES", 512) {
            Ok(v) => v,
            Err(e) => {
                let r = Err(e);
                assert(config_loaded(r, env@, sections@));
                return r;
            },
        };
        let r = Ok(
            ServerConfig {
                accounts,
                write_enabled,
                connect_timeout_ms,
                greeting_timeout_ms,
                socket_timeout_ms,
                cursor_ttl_seconds,
                cursor_max_entries,
            },
        );
        assert(config_loaded(r, env@, sections@));
        r
    }
}

} // verus!
