//! Resource identifiers of messages and the transport-safe form of raw
//! message bytes.

use crate::text::{decimal, push_decimal};
use base64::Engine;
use vstd::prelude::*;
use vstd::utf8::encode_utf8;

verus! {

/// The bytes that percent-encoding leaves as they are: ASCII letters and
/// digits, `-`, `.`, `_` and `~`.
pub open spec fn unreserved(b: u8) -> bool {
    (0x30 <= b && b <= 0x39) || (0x41 <= b && b <= 0x5a) || (0x61 <= b && b <= 0x7a) || b == 0x2d
        || b == 0x2e || b == 0x5f || b == 0x7e
}

/// The upper-case hexadecimal digit of `d`.
pub open spec fn hex_digit(d: int) -> char {
    if d < 10 {
        ((48 + d) as u8) as char
    } else {
        ((55 + d) as u8) as char
    }
}

/// The percent-encoded form of a byte string: unreserved bytes as they are,
/// every other byte as `%` and two upper-case hexadecimal digits.
pub open spec fn percent_encoded(bytes: Seq<u8>) -> Seq<char>
    decreases bytes.len(),
{
    if bytes.len() == 0 {
        Seq::empty()
    } else if unreserved(bytes[0]) {
        seq![bytes[0] as char] + percent_encoded(bytes.drop_first())
    } else {
        seq!['%', hex_digit(bytes[0] as int / 16), hex_digit(bytes[0] as int % 16)]
            + percent_encoded(bytes.drop_first())
    }
}

/// `urlencoding::encode` percent-encodes the UTF-8 form of a text, leaving
/// unreserved bytes as they are.
#[verifier::external_body]
fn url_encode(text: &str) -> (r: String)
    ensures
        r@ == percent_encoded(encode_utf8(text@)),
{
    urlencoding::encode(text).into_owned()
}

/// The character of the base64 digit `v`, in the standard alphabet.
pub open spec fn base64_char(v: int) -> char {
    if v < 26 {
        ((65 + v) as u8) as char
    } else if v < 52 {
        ((71 + v) as u8) as char
    } else if v < 62 {
        ((v - 4) as u8) as char
    } else if v == 62 {
        '+'
    } else {
        '/'
    }
}

/// The base64 form of a byte string, in the standard alphabet and padded
/// with `=` to a multiple of four characters.
pub open spec fn base64_text(b: Seq<u8>) -> Seq<char>
    decreases b.len(),
{
    if b.len() == 0 {
        Seq::empty()
    } else if b.len() == 1 {
        seq![base64_char(b[0] as int / 4), base64_char((b[0] as int % 4) * 16), '=', '=']
    } else if b.len() == 2 {
        seq![
            base64_char(b[0] as int / 4),
            base64_char((b[0] as int % 4) * 16 + b[1] as int / 16),
            base64_char((b[1] as int % 16) * 4),
            '=',
        ]
    } else {
        seq![
            base64_char(b[0] as int / 4),
            base64_char((b[0] as int % 4) * 16 + b[1] as int / 16),
            base64_char((b[1] as int % 16) * 4 + b[2] as int / 64),
            base64_char(b[2] as int % 64),
        ] + base64_text(b.skip(3))
    }
}

/// The longest byte string whose base64 form is asked for.
pub const MAX_BASE64_INPUT: usize = 0x3000_0000;

/// `Engine::encode` of the engine `STANDARD` writes the base64 form of the
/// bytes in the standard alphabet, with padding. It panics only when the
/// length of the result does not fit the machine, which the bound on the
/// input rules out.
#[verifier::external_body]
fn base64_standard(raw: &[u8]) -> (r: String)
    requires
        raw@.len() <= MAX_BASE64_INPUT,
    ensures
        r@ == base64_text(raw@),
{
    base64::engine::general_purpose::STANDARD.encode(raw)
}

/// The identifier of a message resource.
pub open spec fn message_uri(
    account_id: Seq<char>,
    mailbox: Seq<char>,
    uidvalidity: u32,
    uid: u32,
) -> Seq<char> {
    "imap://"@ + account_id + "/mailbox/"@ + percent_encoded(encode_utf8(mailbox)) + "/message/"@
        + decimal(uidvalidity as nat) + "/"@ + decimal(uid as nat)
}

/// The identifier of the raw source of a message.
pub open spec fn message_raw_uri(
    account_id: Seq<char>,
    mailbox: Seq<char>,
    uidvalidity: u32,
    uid: u32,
) -> Seq<char> {
    message_uri(account_id, mailbox, uidvalidity, uid) + "/raw"@
}

/// Builds the identifier of a message resource:
/// `imap://{account}/mailbox/{mailbox, percent-encoded}/message/{epoch}/{number}`.
pub fn build_message_uri(account_id: &str, mailbox: &str, uidvalidity: u32, uid: u32) -> (r: String)
    ensures
        r@ == message_uri(account_id@, mailbox@, uidvalidity, uid),
{
    let mut r = String::from_str("imap://");
    r.append(account_id);
    r.append("/mailbox/");
    let encoded = url_encode(mailbox);
    r.append(encoded.as_str());
    r.append("/message/");
    push_decimal(&mut r, uidvalidity as u64);
    r.append("/");
    push_decimal(&mut r, uid as u64);
    r
}

/// Builds the identifier of the raw source of a message: that of the message
/// with `/raw` behind it.
pub fn build_message_raw_uri(account_id: &str, mailbox: &str, uidvalidity: u32, uid: u32) -> (r:
    String)
    ensures
        r@ == message_raw_uri(account_id@, mailbox@, uidvalidity, uid),
{
    let mut r = build_message_uri(account_id, mailbox, uidvalidity, uid);
    r.append("/raw");
    r
}

/// The base64 form of raw message bytes.
pub fn encode_raw_source_base64(raw: &[u8]) -> (r: String)
    requires
        raw@.len() <= MAX_BASE64_INPUT,
    ensures
        r@ == base64_text(raw@),
{
    base64_standard(raw)
}

} // verus!
