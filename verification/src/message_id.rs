//! Stable message identities and their canonical text form
//! `imap:{account_id}:{mailbox}:{uidvalidity}:{uid}`.
//!
//! The mailbox may itself contain colons. The first two colon-delimited fields
//! are the scheme and the account, the last two are the two numbers, and all
//! that lies between is the mailbox.
//!
//! The two numbers are read only as they are written: digits alone, without
//! sign and without leading zeros. So every text that is read is the text
//! form of the identity that it denotes.

use crate::errors::{AppError, AppResult};
use crate::text::{
    chars_of, decimal, find_first, find_last, first_index, free_of, last_index,
    lemma_decimal_digits, lemma_first_index, lemma_first_index_unique, lemma_last_index,
    lemma_last_index_unique, lemma_parse_shortest, parse_shortest, parse_u32, push_decimal,
    slice_is, starts_with, string_of,
};
use vstd::prelude::*;

verus! {

/// Identity of one message: account, mailbox, mailbox epoch and the message's
/// number within that epoch.
#[derive(Debug)]
pub struct MessageId {
    /// Account identifier.
    pub account_id: String,
    /// Mailbox name; may contain colons.
    pub mailbox: String,
    /// Mailbox epoch (UIDVALIDITY).
    pub uidvalidity: u32,
    /// Number of the message within the epoch (UID).
    pub uid: u32,
}

/// Mathematical value of a `MessageId`.
pub struct MessageIdView {
    pub account_id: Seq<char>,
    pub mailbox: Seq<char>,
    pub uidvalidity: u32,
    pub uid: u32,
}

impl View for MessageId {
    type V = MessageIdView;

    open spec fn view(&self) -> MessageIdView {
        MessageIdView {
            account_id: self.account_id@,
            mailbox: self.mailbox@,
            uidvalidity: self.uidvalidity,
            uid: self.uid,
        }
    }
}

/// The identities whose text form can be read back: the account holds no
/// colon and the mailbox is not empty.
pub open spec fn valid_identity(v: MessageIdView) -> bool {
    free_of(v.account_id, ':') && v.mailbox.len() > 0
}

/// The canonical text form of an identity.
pub open spec fn encode_spec(v: MessageIdView) -> Seq<char> {
    "imap"@ + seq![':'] + v.account_id + seq![':'] + v.mailbox + seq![':'] + decimal(
        v.uidvalidity as nat,
    ) + seq![':'] + decimal(v.uid as nat)
}

/// What reading a text as an identity yields.
pub enum Decoded {
    /// The text is well formed and denotes this identity.
    Identity(MessageIdView),
    /// The text has fewer than five colon-delimited segments.
    TooFewSegments,
    /// The first segment is not `imap`.
    WrongScheme,
    /// The last segment is not the shortest numeral of a `u32`.
    BadUid,
    /// The last segment but one is not the shortest numeral of a `u32`.
    BadUidvalidity,
    /// Nothing lies between the account and the two numbers.
    EmptyMailbox,
}

/// Positions of the four colons that delimit the fields of `s`: the first
/// two colons of the text and its last two. `None` if the text holds fewer
/// than four colons.
pub open spec fn cuts(s: Seq<char>) -> Option<(int, int, int, int)> {
    let n = s.len() as int;
    let c1 = first_index(s, ':');
    let c2 = c1 + 1 + first_index(s.subrange(c1 + 1, n), ':');
    let k4 = last_index(s.subrange(c2 + 1, n), ':');
    let c4 = c2 + 1 + k4;
    let k3 = last_index(s.subrange(c2 + 1, c4), ':');
    let c3 = c2 + 1 + k3;
    if c1 >= n || c2 >= n || k4 < 0 || k3 < 0 {
        None
    } else {
        Some((c1, c2, c3, c4))
    }
}

/// Reads the fields of `s` that the four colons at `c1 < c2 <= c3 < c4`
/// delimit. The checks are made in the order of the variants of `Decoded`.
pub open spec fn fields(s: Seq<char>, c1: int, c2: int, c3: int, c4: int) -> Decoded {
    if s.subrange(0, c1) != "imap"@ {
        Decoded::WrongScheme
    } else {
        match parse_shortest(s.subrange(c4 + 1, s.len() as int), u32::MAX as nat) {
            None => Decoded::BadUid,
            Some(uid) => match parse_shortest(s.subrange(c3 + 1, c4), u32::MAX as nat) {
                None => Decoded::BadUidvalidity,
                Some(uidvalidity) => if c3 == c2 + 1 {
                    Decoded::EmptyMailbox
                } else {
                    Decoded::Identity(
                        MessageIdView {
                            account_id: s.subrange(c1 + 1, c2),
                            mailbox: s.subrange(c2 + 1, c3),
                            uidvalidity: uidvalidity as u32,
                            uid: uid as u32,
                        },
                    )
                },
            },
        }
    }
}

/// Reads a text as an identity.
pub open spec fn decode_spec(s: Seq<char>) -> Decoded {
    match cuts(s) {
        None => Decoded::TooFewSegments,
        Some((c1, c2, c3, c4)) => fields(s, c1, c2, c3, c4),
    }
}

/// The message of the error with which each malformed text is rejected.
pub open spec fn rejection(d: Decoded) -> Seq<char> {
    match d {
        Decoded::Identity(_) => Seq::empty(),
        Decoded::TooFewSegments => "message_id must have at least 5 segments"@,
        Decoded::WrongScheme => "message_id must start with 'imap'"@,
        Decoded::BadUid => "invalid uid in message_id"@,
        Decoded::BadUidvalidity => "invalid uidvalidity in message_id"@,
        Decoded::EmptyMailbox => "message_id mailbox cannot be empty"@,
    }
}

impl MessageId {
    /// Reads the text form of an identity.
    ///
    /// Succeeds exactly on the texts that `decode_spec` accepts, with the
    /// identity it gives; every other text is rejected as `InvalidInput` with
    /// the message of the first check that fails. A text that is read is the
    /// text form of the identity.
    pub fn parse(raw: &str) -> (r: AppResult<MessageId>)
        ensures
            match decode_spec(raw@) {
                Decoded::Identity(v) => r is Ok && r->Ok_0@ == v,
                d => r is Err && r->Err_0 is InvalidInput && r->Err_0.message() == rejection(d),
            },
            r is Ok ==> encode_spec(r->Ok_0@) == raw@,
    {
        let v = chars_of(raw);
        let n = v.len();
        assert(raw@.subrange(0, n as int) =~= raw@);
        let c1 = find_first(&v, 0, n, ':');
        if c1 >= n {
            return Err(AppError::invalid("message_id must have at least 5 segments"));
        }
        let c2 = c1 + 1 + find_first(&v, c1 + 1, n, ':');
        if c2 >= n {
            return Err(AppError::invalid("message_id must have at least 5 segments"));
        }
        let c4 = match find_last(&v, c2 + 1, n, ':') {
            Some(k) => c2 + 1 + k,
            None => {
                return Err(AppError::invalid("message_id must have at least 5 segments"));
            },
        };
        let c3 = match find_last(&v, c2 + 1, c4, ':') {
            Some(k) => c2 + 1 + k,
            None => {
                return Err(AppError::invalid("message_id must have at least 5 segments"));
            },
        };
        assert(cuts(raw@) == Some((c1 as int, c2 as int, c3 as int, c4 as int)));
        if !slice_is(&v, 0, c1, "imap") {
            return Err(AppError::invalid("message_id must start with 'imap'"));
        }
        let uid = match parse_u32(&v, c4 + 1, n) {
            Some(x) => x,
            None => {
                return Err(AppError::invalid("invalid uid in message_id"));
            },
        };
        let uidvalidity = match parse_u32(&v, c3 + 1, c4) {
            Some(x) => x,
            None => {
                return Err(AppError::invalid("invalid uidvalidity in message_id"));
            },
        };
        if c3 == c2 + 1 {
            return Err(AppError::invalid("message_id mailbox cannot be empty"));
        }
        proof {
            lemma_encode_decode(raw@, decode_spec(raw@)->Identity_0);
        }
        Ok(
            MessageId {
                account_id: string_of(&v, c1 + 1, c2),
                mailbox: string_of(&v, c2 + 1, c3),
                uidvalidity,
                uid,
            },
        )
    }

    /// The canonical text form of the identity.
    pub fn encode(&self) -> (s: String)
        ensures
            s@ == encode_spec(self@),
    {
        let mut s = String::from_str("imap");
        s.push(':');
        s.append(self.account_id.as_str());
        s.push(':');
        s.append(self.mailbox.as_str());
        s.push(':');
        push_decimal(&mut s, self.uidvalidity as u64);
        s.push(':');
        push_decimal(&mut s, self.uid as u64);
        assert(s@ =~= encode_spec(self@));
        s
    }

    /// A copy of the identity.
    pub fn duplicate(&self) -> (r: MessageId)
        ensures
            r == *self,
    {
        MessageId {
            account_id: self.account_id.clone(),
            mailbox: self.mailbox.clone(),
            uidvalidity: self.uidvalidity,
            uid: self.uid,
        }
    }
}

/// Decoding the text form of a valid identity gives that identity back.
pub proof fn lemma_decode_encode(v: MessageIdView)
    requires
        valid_identity(v),
    ensures
        decode_spec(encode_spec(v)) == Decoded::Identity(v),
{
    reveal_strlit("imap");
    let colon = seq![':'];
    let d1 = decimal(v.uidvalidity as nat);
    let d2 = decimal(v.uid as nat);
    lemma_decimal_digits(v.uidvalidity as nat);
    lemma_decimal_digits(v.uid as nat);
    lemma_parse_shortest(v.uidvalidity as nat, u32::MAX as nat);
    lemma_parse_shortest(v.uid as nat, u32::MAX as nat);
    let s = encode_spec(v);
    let r1 = v.account_id + colon + v.mailbox + colon + d1 + colon + d2;
    let r2 = v.mailbox + colon + d1 + colon + d2;
    let r3 = v.mailbox + colon + d1;
    let la = v.account_id.len() as int;
    let lm = v.mailbox.len() as int;
    let l1 = d1.len() as int;
    let n = s.len() as int;
    let c1 = 4int;
    let c2 = 5 + la;
    let c3 = c2 + 1 + lm;
    let c4 = c3 + 1 + l1;
    lemma_first_index_unique(s, ':', c1);
    assert(s.subrange(c1 + 1, n) =~= r1);
    lemma_first_index_unique(r1, ':', la);
    assert(s.subrange(c2 + 1, n) =~= r2);
    lemma_last_index_unique(r2, ':', lm + 1 + l1);
    assert(s.subrange(c2 + 1, c4) =~= r3);
    lemma_last_index_unique(r3, ':', lm);
    assert(cuts(s) == Some((c1, c2, c3, c4)));
    assert(s.subrange(0, c1) =~= "imap"@);
    assert(s.subrange(c4 + 1, n) =~= d2);
    assert(s.subrange(c3 + 1, c4) =~= d1);
    assert(s.subrange(c1 + 1, c2) =~= v.account_id);
    assert(s.subrange(c2 + 1, c3) =~= v.mailbox);
}

/// Every identity that decoding yields is valid, so that it survives another
/// round through its text form.
pub proof fn lemma_decoded_is_valid(s: Seq<char>)
    ensures
        decode_spec(s) matches Decoded::Identity(v) ==> valid_identity(v) && decode_spec(
            encode_spec(v),
        ) == Decoded::Identity(v),
{
    if let Some((c1, c2, c3, c4)) = cuts(s) {
        if let Decoded::Identity(v) = fields(s, c1, c2, c3, c4) {
            let n = s.len() as int;
            let r1 = s.subrange(c1 + 1, n);
            lemma_first_index(s, ':');
            lemma_first_index(r1, ':');
            lemma_last_index(s.subrange(c2 + 1, n), ':');
            lemma_last_index(s.subrange(c2 + 1, c4), ':');
            assert(v.account_id == s.subrange(c1 + 1, c2));
            assert forall|i: int| 0 <= i < v.account_id.len() implies v.account_id[i] != ':' by {
                assert(v.account_id[i] == r1[i]);
            }
            assert(v.mailbox.len() == c3 - c2 - 1);
            lemma_decode_encode(v);
        }
    }
}

/// The number of colons in `s`: one less than the number of its segments.
pub open spec fn colons(s: Seq<char>) -> nat
    decreases s.len(),
{
    if s.len() == 0 {
        0
    } else {
        colons(s.drop_last()) + if s.last() == ':' {
            1nat
        } else {
            0nat
        }
    }
}

/// What follows the last colon of `s`: its last segment.
pub open spec fn last_segment(s: Seq<char>) -> Seq<char> {
    s.subrange(last_index(s, ':') + 1, s.len() as int)
}

/// What precedes the last colon of `s`; nothing if `s` holds no colon.
pub open spec fn before_last_segment(s: Seq<char>) -> Seq<char> {
    if last_index(s, ':') >= 0 {
        s.subrange(0, last_index(s, ':'))
    } else {
        Seq::empty()
    }
}

/// `s` is the shortest numeral of a `u32`.
pub open spec fn is_number(s: Seq<char>) -> bool {
    parse_shortest(s, u32::MAX as nat) is Some
}

proof fn lemma_colons_split(s: Seq<char>, k: int)
    requires
        0 <= k <= s.len(),
    ensures
        colons(s) == colons(s.subrange(0, k)) + colons(s.subrange(k, s.len() as int)),
    decreases s.len(),
{
    let n = s.len() as int;
    if k == n {
        assert(s.subrange(0, k) =~= s);
    } else {
        let t = s.drop_last();
        lemma_colons_split(t, k);
        assert(t.subrange(0, k) =~= s.subrange(0, k));
        assert(s.subrange(k, n).drop_last() =~= t.subrange(k, n - 1));
        assert(s.subrange(k, n).last() == s.last());
    }
}

proof fn lemma_colons_none(s: Seq<char>)
    ensures
        (colons(s) == 0) == free_of(s, ':'),
    decreases s.len(),
{
    if s.len() > 0 {
        let t = s.drop_last();
        lemma_colons_none(t);
        if free_of(s, ':') {
            assert forall|i: int| 0 <= i < t.len() implies t[i] != ':' by {
                assert(t[i] == s[i]);
            }
            assert(s.last() == s[s.len() - 1]);
        } else if s.last() != ':' {
            let i = choose|i: int| 0 <= i < s.len() && s[i] == ':';
            assert(t[i] == s[i]);
        }
    }
}

/// The colons of a text whose colon at `k` is followed by `rest`.
proof fn lemma_colons_after(s: Seq<char>, k: int)
    requires
        0 <= k < s.len(),
        s[k] == ':',
    ensures
        colons(s) == colons(s.subrange(0, k)) + 1 + colons(s.subrange(k + 1, s.len() as int)),
{
    let n = s.len() as int;
    let tail = s.subrange(k, n);
    lemma_colons_split(s, k);
    lemma_colons_split(tail, 1);
    assert(tail.subrange(1, n - k) =~= s.subrange(k + 1, n));
    let one = tail.subrange(0, 1);
    assert(one.drop_last() =~= Seq::<char>::empty());
    assert(one.last() == ':');
    assert(colons(one.drop_last()) == 0);
}

/// What the four cuts of a text are: there are four exactly when the text
/// holds four colons or more, they are colons in their order, the first
/// stands behind the scheme, and the last two stand before the last two
/// segments.
proof fn lemma_cut_facts(s: Seq<char>)
    ensures
        colons(s) < 4 <==> cuts(s) is None,
        cuts(s) matches Some((c1, c2, c3, c4)) ==> {
            &&& 0 <= c1 < c2 < c3 < c4 < s.len()
            &&& s[c1] == ':' && s[c2] == ':' && s[c3] == ':' && s[c4] == ':'
            &&& (s.subrange(0, c1) == "imap"@) == starts_with(s, "imap:"@)
            &&& last_segment(s) == s.subrange(c4 + 1, s.len() as int)
            &&& last_segment(before_last_segment(s)) == s.subrange(c3 + 1, c4)
        },
{
    reveal_strlit("imap");
    reveal_strlit("imap:");
    let n = s.len() as int;
    let c1 = first_index(s, ':');
    lemma_first_index(s, ':');
    if c1 >= n {
        lemma_colons_none(s);
    } else {
        let r1 = s.subrange(c1 + 1, n);
        lemma_colons_after(s, c1);
        lemma_colons_none(s.subrange(0, c1));
        lemma_first_index(r1, ':');
        let k2 = first_index(r1, ':');
        let c2 = c1 + 1 + k2;
        if c2 >= n {
            lemma_colons_none(r1);
        } else {
            let r2 = s.subrange(c2 + 1, n);
            lemma_colons_after(r1, k2);
            lemma_colons_none(r1.subrange(0, k2));
            assert(r1.subrange(k2 + 1, r1.len() as int) =~= r2);
            lemma_last_index(r2, ':');
            let k4 = last_index(r2, ':');
            let c4 = c2 + 1 + k4;
            if k4 < 0 {
                lemma_colons_none(r2);
            } else {
                let r3 = s.subrange(c2 + 1, c4);
                lemma_colons_after(r2, k4);
                lemma_colons_none(r2.subrange(k4 + 1, r2.len() as int));
                assert(r2.subrange(0, k4) =~= r3);
                lemma_last_index(r3, ':');
                let k3 = last_index(r3, ':');
                let c3 = c2 + 1 + k3;
                if k3 < 0 {
                    lemma_colons_none(r3);
                } else {
                    lemma_colons_after(r3, k3);
                    assert(cuts(s) == Some((c1, c2, c3, c4)));
                    if s.subrange(0, c1) == "imap"@ {
                        assert(s.subrange(0, 5) =~= "imap:"@);
                    }
                    if starts_with(s, "imap:"@) {
                        assert(s[4] == "imap:"@[4]);
                        assert forall|i: int| 0 <= i < 4 implies s[i] != ':' by {
                            assert(s[i] == "imap:"@[i]);
                        }
                        assert(c1 == 4);
                        assert(s.subrange(0, c1) =~= "imap"@);
                    }
                    assert(s[c2] == r1[k2]);
                    assert(s[c3] == r3[k3]);
                    assert(s[c4] == r2[k4]);
                    assert forall|i: int| c4 < i < n implies s[i] != ':' by {
                        assert(s[i] == r2[i - (c2 + 1)]);
                    }
                    lemma_last_index_unique(s, ':', c4);
                    let head = s.subrange(0, c4);
                    assert forall|i: int| c3 < i < c4 implies head[i] != ':' by {
                        assert(head[i] == r3[i - (c2 + 1)]);
                    }
                    assert(head[c3] == r3[k3]);
                    lemma_last_index_unique(head, ':', c3);
                    assert(last_segment(head) =~= s.subrange(c3 + 1, c4));
                }
            }
        }
    }
}

/// A text with fewer than five colon-delimited segments, without the scheme
/// `imap`, or whose last two segments are not both shortest numerals of a
/// `u32`, is no identity: decoding rejects it, the first two for these very
/// reasons.
pub proof fn lemma_malformed_is_rejected(s: Seq<char>)
    ensures
        colons(s) < 4 <==> decode_spec(s) is TooFewSegments,
        colons(s) >= 4 && !starts_with(s, "imap:"@) <==> decode_spec(s) is WrongScheme,
        decode_spec(s) is Identity ==> is_number(last_segment(s)) && is_number(
            last_segment(before_last_segment(s)),
        ),
{
    lemma_cut_facts(s);
}

/// Every text that is read as an identity is the text form of that
/// identity.
pub proof fn lemma_encode_decode(s: Seq<char>, v: MessageIdView)
    requires
        decode_spec(s) == Decoded::Identity(v),
    ensures
        encode_spec(v) == s,
{
    lemma_cut_facts(s);
    reveal_strlit("imap");
    let (c1, c2, c3, c4) = cuts(s)->Some_0;
    let n = s.len() as int;
    assert(s.subrange(0, c1) == "imap"@);
    assert(c1 == 4);
    let joined = s.subrange(0, c1) + seq![':'] + s.subrange(c1 + 1, c2) + seq![':'] + s.subrange(
        c2 + 1,
        c3,
    ) + seq![':'] + s.subrange(c3 + 1, c4) + seq![':'] + s.subrange(c4 + 1, n);
    assert(joined =~= s);
}

} // verus!
