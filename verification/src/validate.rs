//! The checks that every request passes before any network traffic.
//!
//! Each check has a spec function that gives the message of its rejection,
//! or `None` for an input that passes. Every rejection is an `InvalidInput`.

use crate::config::ServerConfig;
use crate::dates::{day_le, day_of_text, read_day, Ymd};
use crate::errors::{AppError, AppResult};
use crate::message_id::{decode_spec, rejection, Decoded, MessageId};
use crate::models::SearchMessagesInput;
use crate::text::{
    byte_len, char_is_ascii_alphanumeric, char_is_ascii_control, char_is_ascii_whitespace, chars_of,
    concat2, concat3, decimal, has_ascii_control, is_ascii_alphanumeric, is_ascii_control,
    is_ascii_whitespace, push_decimal, str_has_ascii_control, utf8_len,
};
use vstd::prelude::*;

verus! {

/// `r` is the verdict that goes with `fault`: success for no fault, else an
/// `InvalidInput` error with the fault as its message.
pub open spec fn verdict<T>(r: AppResult<T>, fault: Option<Seq<char>>) -> bool {
    match fault {
        None => r is Ok,
        Some(m) => r is Err && r->Err_0 is InvalidInput && r->Err_0.message() == m,
    }
}

// ---------------------------------------------------------------------------
// Single fields
// ---------------------------------------------------------------------------

/// A character that an account identifier may hold.
pub open spec fn account_char(c: char) -> bool {
    is_ascii_alphanumeric(c) || c == '_' || c == '-'
}

/// What is wrong with an account identifier.
pub open spec fn account_id_fault(id: Seq<char>) -> Option<Seq<char>> {
    if id.len() == 0 || utf8_len(id) > 64 {
        Some("account_id must be 1..64 characters"@)
    } else if exists|i: int| 0 <= i < id.len() && !account_char(#[trigger] id[i]) {
        Some("account_id must match [A-Za-z0-9_-]+"@)
    } else {
        None
    }
}

/// Checks an account identifier: 1 to 64 bytes of ASCII letters, digits, `_`
/// and `-`.
pub fn validate_account_id(account_id: &str) -> (r: AppResult<()>)
    ensures
        verdict(r, account_id_fault(account_id@)),
{
    let v = chars_of(account_id);
    if v.len() == 0 || byte_len(account_id) > 64 {
        return Err(AppError::invalid("account_id must be 1..64 characters"));
    }
    let mut i: usize = 0;
    while i < v.len()
        invariant
            i <= v.len(),
            v@ == account_id@,
            account_id@.len() > 0,
            utf8_len(account_id@) <= 64,
            forall|j: int| 0 <= j < i ==> account_char(#[trigger] account_id@[j]),
        decreases v.len() - i,
    {
        let c = v[i];
        if !(char_is_ascii_alphanumeric(c) || c == '_' || c == '-') {
            assert(!account_char(account_id@[i as int]));
            return Err(AppError::invalid("account_id must match [A-Za-z0-9_-]+"));
        }
        i += 1;
    }
    Ok(())
}

/// The message that rejects control characters in the field `field`.
pub open spec fn controls_message(field: Seq<char>) -> Seq<char> {
    field + " must not contain control characters"@
}

/// What is wrong with a value that must hold no ASCII control character.
pub open spec fn controls_fault(value: Seq<char>, field: Seq<char>) -> Option<Seq<char>> {
    if has_ascii_control(value) {
        Some(controls_message(field))
    } else {
        None
    }
}

/// Rejects a value that holds an ASCII control character.
pub fn validate_no_controls(value: &str, field: &str) -> (r: AppResult<()>)
    ensures
        verdict(r, controls_fault(value@, field@)),
{
    if str_has_ascii_control(value) {
        return Err(AppError::InvalidInput(concat2(field, " must not contain control characters")));
    }
    Ok(())
}

/// What is wrong with a mailbox name.
pub open spec fn mailbox_fault(mailbox: Seq<char>) -> Option<Seq<char>> {
    if mailbox.len() == 0 || utf8_len(mailbox) > 256 {
        Some("mailbox must be 1..256 characters"@)
    } else {
        controls_fault(mailbox, "mailbox"@)
    }
}

/// Checks a mailbox name: 1 to 256 bytes without ASCII control characters.
pub fn validate_mailbox(mailbox: &str) -> (r: AppResult<()>)
    ensures
        verdict(r, mailbox_fault(mailbox@)),
{
    if mailbox.unicode_len() == 0 || byte_len(mailbox) > 256 {
        return Err(AppError::invalid("mailbox must be 1..256 characters"));
    }
    validate_no_controls(mailbox, "mailbox")
}

/// The message that rejects a number outside `min..max`.
pub open spec fn range_message(field: Seq<char>, min: usize, max: usize) -> Seq<char> {
    field + " must be in range "@ + decimal(min as nat) + ".."@ + decimal(max as nat)
}

/// What is wrong with a number that must lie in `min..=max`.
pub open spec fn range_fault(value: usize, min: usize, max: usize, field: Seq<char>) -> Option<
    Seq<char>,
> {
    if value < min || value > max {
        Some(range_message(field, min, max))
    } else {
        None
    }
}

/// Checks that a number lies in `min..=max`.
pub fn validate_chars(value: usize, min: usize, max: usize, field: &str) -> (r: AppResult<()>)
    ensures
        verdict(r, range_fault(value, min, max, field@)),
{
    if value < min || value > max {
        let mut m = concat2(field, " must be in range ");
        push_decimal(&mut m, min as u64);
        m.append("..");
        push_decimal(&mut m, max as u64);
        return Err(AppError::InvalidInput(m));
    }
    Ok(())
}

/// What is wrong with a free-text search field.
pub open spec fn search_text_fault(text: Seq<char>) -> Option<Seq<char>> {
    if text.len() == 0 || utf8_len(text) > 256 {
        Some("search text fields must be 1..256 chars"@)
    } else {
        controls_fault(text, "search text"@)
    }
}

/// Checks a free-text search field: 1 to 256 bytes without ASCII control
/// characters.
pub fn validate_search_text(input: &str) -> (r: AppResult<()>)
    ensures
        verdict(r, search_text_fault(input@)),
{
    if input.unicode_len() == 0 || byte_len(input) > 256 {
        return Err(AppError::invalid("search text fields must be 1..256 chars"));
    }
    validate_no_controls(input, "search text")
}

// ---------------------------------------------------------------------------
// Flags
// ---------------------------------------------------------------------------

/// A character that no flag atom may hold: control characters, white space,
/// quotes, parentheses, braces and the backslash.
pub open spec fn forbidden_in_atom(c: char) -> bool {
    is_ascii_control(c) || is_ascii_whitespace(c) || c == '"' || c == '(' || c == ')' || c == '{'
        || c == '}' || c == '\\'
}

/// The atom of a flag: the flag without one leading backslash.
pub open spec fn flag_atom(flag: Seq<char>) -> Seq<char> {
    if flag.len() > 0 && flag[0] == '\\' {
        flag.subrange(1, flag.len() as int)
    } else {
        flag
    }
}

/// A flag is well formed when it has 1 to 64 bytes and its atom is not empty
/// and holds no forbidden character.
pub open spec fn flag_ok(flag: Seq<char>) -> bool {
    &&& flag.len() > 0
    &&& utf8_len(flag) <= 64
    &&& flag_atom(flag).len() > 0
    &&& forall|i: int| 0 <= i < flag_atom(flag).len() ==> !forbidden_in_atom(#[trigger] flag_atom(flag)[i])
}

/// What is wrong with a flag.
pub open spec fn flag_fault(flag: Seq<char>) -> Option<Seq<char>> {
    if flag_ok(flag) {
        None
    } else {
        Some("invalid flag"@)
    }
}

/// Checks one flag.
pub fn validate_flag(flag: &str) -> (r: AppResult<()>)
    ensures
        verdict(r, flag_fault(flag@)),
{
    let v = chars_of(flag);
    if v.len() == 0 || byte_len(flag) > 64 {
        return Err(AppError::invalid("invalid flag"));
    }
    let start: usize = if v[0] == '\\' {
        1
    } else {
        0
    };
    let ghost atom = flag_atom(flag@);
    assert(atom =~= v@.subrange(start as int, v.len() as int));
    if start == v.len() {
        return Err(AppError::invalid("invalid flag"));
    }
    let mut i: usize = start;
    while i < v.len()
        invariant
            start <= i <= v.len(),
            atom == v@.subrange(start as int, v.len() as int),
            atom == flag_atom(flag@),
            forall|j: int| 0 <= j < i - start ==> !forbidden_in_atom(#[trigger] atom[j]),
        decreases v.len() - i,
    {
        let c = v[i];
        if char_is_ascii_control(c) || char_is_ascii_whitespace(c) || c == '"' || c == '(' || c
            == ')' || c == '{' || c == '}' || c == '\\' {
            assert(forbidden_in_atom(atom[i - start]));
            return Err(AppError::invalid("invalid flag"));
        }
        i += 1;
    }
    Ok(())
}

/// Index of the first flag of `flags` that is not well formed, or
/// `flags.len()`.
pub open spec fn first_bad_flag(flags: Seq<String>) -> int
    decreases flags.len(),
{
    if flags.len() == 0 || !flag_ok(flags[0]@) {
        0
    } else {
        1 + first_bad_flag(flags.drop_first())
    }
}

/// The message that rejects the flag `flag` of the field `field`.
pub open spec fn bad_flag_message(field: Seq<char>, flag: Seq<char>) -> Seq<char> {
    field + " contains invalid flag '"@ + flag
        + "'; flags must not contain whitespace, control chars, quotes, parentheses, or braces"@
}

/// What is wrong with a list of flags: its first flag that is not well
/// formed.
pub open spec fn flags_fault(flags: Seq<String>, field: Seq<char>) -> Option<Seq<char>> {
    if first_bad_flag(flags) < flags.len() {
        Some(bad_flag_message(field, flags[first_bad_flag(flags)]@))
    } else {
        None
    }
}

pub proof fn lemma_first_bad_flag_unique(flags: Seq<String>, k: int)
    requires
        0 <= k <= flags.len(),
        k < flags.len() ==> !flag_ok(flags[k]@),
        forall|i: int| 0 <= i < k ==> flag_ok((#[trigger] flags[i])@),
    ensures
        first_bad_flag(flags) == k,
    decreases flags.len(),
{
    if k > 0 {
        let t = flags.drop_first();
        assert(flag_ok(flags[0]@));
        assert forall|i: int| 0 <= i < k - 1 implies flag_ok((#[trigger] t[i])@) by {
            assert(t[i] == flags[i + 1]);
        }
        lemma_first_bad_flag_unique(t, k - 1);
    }
}

/// Checks every flag of a list.
pub fn validate_flags(flags: &Vec<String>, field: &str) -> (r: AppResult<()>)
    ensures
        verdict(r, flags_fault(flags@, field@)),
{
    let mut i: usize = 0;
    while i < flags.len()
        invariant
            i <= flags.len(),
            forall|j: int| 0 <= j < i ==> flag_ok((#[trigger] flags@[j])@),
        decreases flags.len() - i,
    {
        if validate_flag(flags[i].as_str()).is_err() {
            proof {
                lemma_first_bad_flag_unique(flags@, i as int);
            }
            let mut m = concat3(field, " contains invalid flag '", flags[i].as_str());
            m.append(
                "'; flags must not contain whitespace, control chars, quotes, parentheses, or braces",
            );
            return Err(AppError::InvalidInput(m));
        }
        i += 1;
    }
    proof {
        lemma_first_bad_flag_unique(flags@, i as int);
    }
    Ok(())
}

// ---------------------------------------------------------------------------
// Identities and the write gate
// ---------------------------------------------------------------------------

/// What is wrong with the identity text `message_id` in a call that is
/// scoped to `account_id`: the text is malformed, its mailbox is no valid
/// mailbox name, or it belongs to another account.
pub open spec fn identity_fault(account_id: Seq<char>, message_id: Seq<char>) -> Option<Seq<char>> {
    match decode_spec(message_id) {
        Decoded::Identity(v) => if mailbox_fault(v.mailbox) is Some {
            mailbox_fault(v.mailbox)
        } else if v.account_id != account_id {
            Some("message_id account does not match account_id"@)
        } else {
            None
        },
        d => Some(rejection(d)),
    }
}

/// Reads an identity and checks that it can be used in a call scoped to
/// `account_id`.
pub fn parse_and_validate_message_id(account_id: &str, message_id: &str) -> (r: AppResult<
    MessageId,
>)
    ensures
        verdict(r, identity_fault(account_id@, message_id@)),
        r is Ok ==> decode_spec(message_id@) == Decoded::Identity(r->Ok_0@),
        r is Ok ==> r->Ok_0.account_id@ == account_id@,
{
    let msg_id = match MessageId::parse(message_id) {
        Ok(id) => id,
        Err(e) => {
            return Err(e);
        },
    };
    match validate_mailbox(msg_id.mailbox.as_str()) {
        Ok(()) => {},
        Err(e) => {
            return Err(e);
        },
    }
    if !crate::text::str_eq(msg_id.account_id.as_str(), account_id) {
        return Err(AppError::invalid("message_id account does not match account_id"));
    }
    Ok(msg_id)
}

/// What is wrong with a call that changes a mailbox, as far as the write
/// gate goes.
pub open spec fn write_gate_fault(write_enabled: bool) -> Option<Seq<char>> {
    if write_enabled {
        None
    } else {
        Some("write tools are disabled; set MAIL_IMAP_WRITE_ENABLED=true"@)
    }
}

/// Lets a call that changes a mailbox pass only if the write gate is open.
pub fn require_write_enabled(config: &ServerConfig) -> (r: AppResult<()>)
    ensures
        verdict(r, write_gate_fault(config.write_enabled)),
{
    if !config.write_enabled {
        return Err(AppError::invalid("write tools are disabled; set MAIL_IMAP_WRITE_ENABLED=true"));
    }
    Ok(())
}

// ---------------------------------------------------------------------------
// Search input
// ---------------------------------------------------------------------------

/// The message that rejects a text that is no day.
pub open spec fn bad_date_message(text: Seq<char>) -> Seq<char> {
    "invalid date '"@ + text + "', expected YYYY-MM-DD"@
}

/// What is wrong with a text that must be a day.
pub open spec fn date_fault(text: Seq<char>) -> Option<Seq<char>> {
    if day_of_text(text) is None {
        Some(bad_date_message(text))
    } else {
        None
    }
}

/// Reads a day written as `YYYY-MM-DD`.
pub fn parse_ymd(input: &str) -> (r: AppResult<Ymd>)
    ensures
        verdict(r, date_fault(input@)),
        r is Ok ==> day_of_text(input@) == Some(r->Ok_0),
{
    match read_day(input) {
        Some(d) => Ok(d),
        None => Err(AppError::InvalidInput(concat3("invalid date '", input, "', expected YYYY-MM-DD"))),
    }
}

/// What is wrong with an optional free-text search field.
pub open spec fn optional_text_fault(text: Option<String>) -> Option<Seq<char>> {
    match text {
        Some(t) => search_text_fault(t@),
        None => None,
    }
}

/// The request names a search criterion.
pub open spec fn has_filters(input: SearchMessagesInput) -> bool {
    input.query is Some || input.from is Some || input.to is Some || input.subject is Some
        || input.unread_only is Some || input.last_days is Some || input.start_date is Some
        || input.end_date is Some
}

/// What is wrong with the snippet settings.
pub open spec fn snippet_fault(input: SearchMessagesInput) -> Option<Seq<char>> {
    match input.snippet_max_chars {
        Some(v) => if range_fault(v, 50, 500, "snippet_max_chars"@) is Some {
            range_fault(v, 50, 500, "snippet_max_chars"@)
        } else if !input.include_snippet {
            Some("snippet_max_chars requires include_snippet=true"@)
        } else {
            None
        },
        None => None,
    }
}

/// What is wrong with an explicit range of days.
pub open spec fn date_range_fault(input: SearchMessagesInput) -> Option<Seq<char>> {
    match (input.start_date, input.end_date) {
        (Some(start), Some(end)) => match (day_of_text(start@), day_of_text(end@)) {
            (None, _) => Some(bad_date_message(start@)),
            (Some(_), None) => Some(bad_date_message(end@)),
            (Some(a), Some(b)) => if day_le(a, b) {
                None
            } else {
                Some("start_date must be <= end_date"@)
            },
        },
        _ => None,
    }
}

/// What is wrong with a search request: the first check that fails, in the
/// order mailbox, limit, `last_days`, snippet settings, the four text
/// fields, cursor together with criteria, `last_days` together with a range
/// of days, the range of days itself.
pub open spec fn search_input_fault(input: SearchMessagesInput) -> Option<Seq<char>> {
    if mailbox_fault(input.mailbox@) is Some {
        mailbox_fault(input.mailbox@)
    } else if range_fault(input.limit, 1, 50, "limit"@) is Some {
        range_fault(input.limit, 1, 50, "limit"@)
    } else if input.last_days is Some && !(1 <= input.last_days->Some_0 <= 365) {
        Some("last_days must be in range 1..365"@)
    } else if snippet_fault(input) is Some {
        snippet_fault(input)
    } else if optional_text_fault(input.query) is Some {
        optional_text_fault(input.query)
    } else if optional_text_fault(input.from) is Some {
        optional_text_fault(input.from)
    } else if optional_text_fault(input.to) is Some {
        optional_text_fault(input.to)
    } else if optional_text_fault(input.subject) is Some {
        optional_text_fault(input.subject)
    } else if input.cursor is Some && has_filters(input) {
        Some("cursor cannot be combined with search criteria"@)
    } else if input.last_days is Some && (input.start_date is Some || input.end_date is Some) {
        Some("last_days cannot be combined with start_date/end_date"@)
    } else {
        date_range_fault(input)
    }
}

fn validate_optional_text(text: &Option<String>) -> (r: AppResult<()>)
    ensures
        verdict(r, optional_text_fault(*text)),
{
    match text {
        Some(t) => validate_search_text(t.as_str()),
        None => Ok(()),
    }
}

fn validate_snippet(input: &SearchMessagesInput) -> (r: AppResult<()>)
    ensures
        verdict(r, snippet_fault(*input)),
{
    match input.snippet_max_chars {
        Some(v) => {
            match validate_chars(v, 50, 500, "snippet_max_chars") {
                Ok(()) => {},
                Err(e) => {
                    return Err(e);
                },
            }
            if !input.include_snippet {
                return Err(AppError::invalid("snippet_max_chars requires include_snippet=true"));
            }
            Ok(())
        },
        None => Ok(()),
    }
}

fn validate_date_range(input: &SearchMessagesInput) -> (r: AppResult<()>)
    ensures
        verdict(r, date_range_fault(*input)),
{
    match (&input.start_date, &input.end_date) {
        (Some(start), Some(end)) => {
            let a = match parse_ymd(start.as_str()) {
                Ok(d) => d,
                Err(e) => {
                    return Err(e);
                },
            };
            let b = match parse_ymd(end.as_str()) {
                Ok(d) => d,
                Err(e) => {
                    return Err(e);
                },
            };
            if !a.le(&b) {
                return Err(AppError::invalid("start_date must be <= end_date"));
            }
            Ok(())
        },
        _ => Ok(()),
    }
}

/// Checks a search request.
pub fn validate_search_input(input: &SearchMessagesInput) -> (r: AppResult<()>)
    ensures
        verdict(r, search_input_fault(*input)),
{
    match validate_mailbox(input.mailbox.as_str()) {
        Ok(()) => {},
        Err(e) => {
            return Err(e);
        },
    }
    match validate_chars(input.limit, 1, 50, "limit") {
        Ok(()) => {},
        Err(e) => {
            return Err(e);
        },
    }
    if let Some(v) = input.last_days {
        if !(1 <= v && v <= 365) {
            return Err(AppError::invalid("last_days must be in range 1..365"));
        }
    }
    match validate_snippet(input) {
        Ok(()) => {},
        Err(e) => {
            return Err(e);
        },
    }
    match validate_optional_text(&input.query) {
        Ok(()) => {},
        Err(e) => {
            return Err(e);
        },
    }
    match validate_optional_text(&input.from) {
        Ok(()) => {},
        Err(e) => {
            return Err(e);
        },
    }
    match validate_optional_text(&input.to) {
        Ok(()) => {},
        Err(e) => {
            return Err(e);
        },
    }
    match validate_optional_text(&input.subject) {
        Ok(()) => {},
        Err(e) => {
            return Err(e);
        },
    }
    let has_filters = input.query.is_some() || input.from.is_some() || input.to.is_some()
        || input.subject.is_some() || input.unread_only.is_some() || input.last_days.is_some()
        || input.start_date.is_some() || input.end_date.is_some();
    if input.cursor.is_some() && has_filters {
        return Err(AppError::invalid("cursor cannot be combined with search criteria"));
    }
    if input.last_days.is_some() && (input.start_date.is_some() || input.end_date.is_some()) {
        return Err(AppError::invalid("last_days cannot be combined with start_date/end_date"));
    }
    validate_date_range(input)
}

/// A continuation token cannot be combined with a search criterion.
pub proof fn lemma_cursor_excludes_filters(input: SearchMessagesInput)
    requires
        input.cursor is Some,
        has_filters(input),
    ensures
        search_input_fault(input) is Some,
{
}

/// A number of last days cannot be combined with a first or last day.
pub proof fn lemma_last_days_excludes_range(input: SearchMessagesInput)
    requires
        input.last_days is Some,
        input.start_date is Some || input.end_date is Some,
    ensures
        search_input_fault(input) is Some,
{
}

/// A range of days whose first day lies after its last day is rejected.
pub proof fn lemma_range_must_be_ordered(input: SearchMessagesInput, first: Ymd, last: Ymd)
    requires
        input.start_date is Some,
        input.end_date is Some,
        day_of_text(input.start_date->Some_0@) == Some(first),
        day_of_text(input.end_date->Some_0@) == Some(last),
        !day_le(first, last),
    ensures
        search_input_fault(input) is Some,
{
}

/// A flag update without a flag to add or to remove has nothing to do.
pub open spec fn no_flags_message() -> Seq<char> {
    "at least one of add_flags/remove_flags is required"@
}

/// A flag that holds a space, a quote or a parenthesis is not well formed.
pub proof fn lemma_flag_rejects_specials(flag: Seq<char>, i: int)
    requires
        0 <= i < flag.len(),
        flag[i] == ' ' || flag[i] == '"' || flag[i] == '(' || flag[i] == ')',
    ensures
        flag_fault(flag) is Some,
{
    let atom = flag_atom(flag);
    if flag[0] == '\\' {
        assert(i >= 1);
        assert(atom[i - 1] == flag[i]);
        assert(forbidden_in_atom(atom[i - 1]));
    } else {
        assert(forbidden_in_atom(atom[i]));
    }
}

} // verus!
