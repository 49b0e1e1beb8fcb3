//! Search cursors: a store of captured search results, bounded in time and in
//! size, that lets a search be continued page by page.
//!
//! Time is a reading of the store's own monotonic clock, in nanoseconds since
//! the store was made. The store never lets its clock run backwards: a reading
//! that lies before the latest one it has seen counts as the latest.

use std::time::Duration;
use std::time::Instant;
use vstd::prelude::*;

verus! {

/// A monotonic instant of std. Nothing is known of its value.
#[verifier::external_type_specification]
#[verifier::external_body]
pub struct ExInstant(Instant);

/// `Instant::now` gives the current instant; nothing is known of it.
pub assume_specification[ Instant::now ]() -> Instant;

/// `Instant::elapsed` gives the time that has passed since the instant;
/// nothing is known of it.
pub assume_specification[ Instant::elapsed ](instant: &Instant) -> Duration;

/// `Duration::as_nanos` gives the duration in whole nanoseconds; nothing is
/// known of it.
pub assume_specification[ Duration::as_nanos ](duration: &Duration) -> u128;

/// `Uuid::new_v4` draws a random identifier, and `to_string` writes it in
/// hyphenated form: 32 hexadecimal digits in five groups, 36 characters in
/// all. Which digits is a matter of chance.
#[verifier::external_body]
fn fresh_token() -> (token: String)
    ensures
        token@.len() == 36,
{
    uuid::Uuid::new_v4().to_string()
}

/// A token for a new cursor, drawn at random: 36 characters.
pub fn new_token() -> (token: String)
    ensures
        token@.len() == 36,
{
    fresh_token()
}

/// One captured search result.
#[derive(Debug)]
pub struct CursorEntry {
    /// Account that was searched.
    pub account_id: String,
    /// Mailbox that was searched.
    pub mailbox: String,
    /// Mailbox epoch at the time of the search.
    pub uidvalidity: u32,
    /// Every matching sequence number, newest first.
    pub uids_desc: Vec<u32>,
    /// Where the next page starts in `uids_desc`.
    pub offset: usize,
    /// Whether pages carry snippets.
    pub include_snippet: bool,
    /// Longest snippet, in characters.
    pub snippet_max_chars: usize,
    /// Clock reading from which on the entry is expired.
    pub expires_at: u128,
}

/// Mathematical value of a `CursorEntry`.
pub struct CursorEntryView {
    pub account_id: Seq<char>,
    pub mailbox: Seq<char>,
    pub uidvalidity: u32,
    pub uids_desc: Seq<u32>,
    pub offset: usize,
    pub include_snippet: bool,
    pub snippet_max_chars: usize,
    pub expires_at: u128,
}

impl View for CursorEntry {
    type V = CursorEntryView;

    open spec fn view(&self) -> CursorEntryView {
        CursorEntryView {
            account_id: self.account_id@,
            mailbox: self.mailbox@,
            uidvalidity: self.uidvalidity,
            uids_desc: self.uids_desc@,
            offset: self.offset,
            include_snippet: self.include_snippet,
            snippet_max_chars: self.snippet_max_chars,
            expires_at: self.expires_at,
        }
    }
}

impl CursorEntry {
    /// A copy of the entry.
    pub fn duplicate(&self) -> (r: CursorEntry)
        ensures
            r@ == self@,
    {
        let uids = self.uids_desc.clone();
        assert(uids@ =~= self.uids_desc@);
        CursorEntry {
            account_id: self.account_id.clone(),
            mailbox: self.mailbox.clone(),
            uidvalidity: self.uidvalidity,
            uids_desc: uids,
            offset: self.offset,
            include_snippet: self.include_snippet,
            snippet_max_chars: self.snippet_max_chars,
            expires_at: self.expires_at,
        }
    }
}

/// A token with the entry it stands for.
#[derive(Debug)]
pub struct CursorSlot {
    pub token: String,
    pub entry: CursorEntry,
}

/// The later of two clock readings.
pub open spec fn later(a: u128, b: u128) -> u128 {
    if a >= b {
        a
    } else {
        b
    }
}

/// The reading at which an entry refreshed at `t` expires: `ttl_seconds` later,
/// or at the end of time.
pub open spec fn deadline(t: u128, ttl_seconds: u64) -> u128 {
    if t + ttl_seconds * 1_000_000_000 > u128::MAX {
        u128::MAX
    } else {
        (t + ttl_seconds * 1_000_000_000) as u128
    }
}

/// The slots that have not expired at `t`, in their order.
pub open spec fn live(s: Seq<CursorSlot>, t: u128) -> Seq<CursorSlot>
    decreases s.len(),
{
    if s.len() == 0 {
        s
    } else if s.last().entry.expires_at > t {
        live(s.drop_last(), t).push(s.last())
    } else {
        live(s.drop_last(), t)
    }
}

/// The slots whose token is not `token`, in their order.
pub open spec fn without(s: Seq<CursorSlot>, token: Seq<char>) -> Seq<CursorSlot>
    decreases s.len(),
{
    if s.len() == 0 {
        s
    } else if s.last().token@ != token {
        without(s.drop_last(), token).push(s.last())
    } else {
        without(s.drop_last(), token)
    }
}

/// Index of the first slot with the token `token`, or `s.len()` if there is
/// none.
pub open spec fn position(s: Seq<CursorSlot>, token: Seq<char>) -> int
    decreases s.len(),
{
    if s.len() == 0 || s[0].token@ == token {
        0
    } else {
        1 + position(s.drop_first(), token)
    }
}

/// The entry that `token` stands for, if any.
pub open spec fn lookup(s: Seq<CursorSlot>, token: Seq<char>) -> Option<CursorEntry> {
    if position(s, token) < s.len() {
        Some(s[position(s, token)].entry)
    } else {
        None
    }
}

/// Index of the slot that is evicted first: the one that expires earliest,
/// and among those that expire together the one that stands first.
pub open spec fn earliest(s: Seq<CursorSlot>) -> int
    decreases s.len(),
{
    if s.len() <= 1 {
        0
    } else {
        let j = earliest(s.drop_last());
        if s.last().entry.expires_at < s[j].entry.expires_at {
            s.len() - 1
        } else {
            j
        }
    }
}

/// The slots that are left once the store has been cut down to `max` slots
/// by evicting, one after another, the slot that expires earliest.
pub open spec fn evict(s: Seq<CursorSlot>, max: nat) -> Seq<CursorSlot>
    decreases s.len(),
{
    if s.len() <= max {
        s
    } else {
        proof {
            lemma_earliest(s);
        }
        evict(s.remove(earliest(s)), max)
    }
}

/// The slot `slot` with a new offset and a new expiry.
pub open spec fn refreshed(slot: CursorSlot, offset: usize, expires_at: u128) -> CursorSlot {
    CursorSlot {
        token: slot.token,
        entry: CursorEntry { offset, expires_at, ..slot.entry },
    }
}

/// The store after a look at the clock at `t`: what has expired is gone.
pub open spec fn after_get(s: Seq<CursorSlot>, t: u128) -> Seq<CursorSlot> {
    live(s, t)
}

/// The store after the offset of `token` was advanced at `t`: the entry, if
/// it is live, has the new offset and a full time to live.
pub open spec fn after_update(
    s: Seq<CursorSlot>,
    token: Seq<char>,
    offset: usize,
    t: u128,
    ttl_seconds: u64,
) -> Seq<CursorSlot> {
    let l = live(s, t);
    let i = position(l, token);
    if i < l.len() {
        l.update(i, refreshed(l[i], offset, deadline(t, ttl_seconds)))
    } else {
        l
    }
}

/// The store after `token` was deleted at `t`.
pub open spec fn after_delete(s: Seq<CursorSlot>, token: Seq<char>, t: u128) -> Seq<CursorSlot> {
    without(live(s, t), token)
}

/// The store after `slot` was created at `t` in a store that holds at most
/// `max` slots.
pub open spec fn after_create(s: Seq<CursorSlot>, slot: CursorSlot, t: u128, max: nat) -> Seq<
    CursorSlot,
> {
    evict(after_delete(s, slot.token@, t).push(slot), max)
}

/// No slot of `s` expires later than `bound`.
pub open spec fn expire_by(s: Seq<CursorSlot>, bound: u128) -> bool {
    forall|i: int| 0 <= i < s.len() ==> (#[trigger] s[i]).entry.expires_at <= bound
}

/// Every slot of `r` is a slot of `s`.
pub open spec fn drawn_from(r: Seq<CursorSlot>, s: Seq<CursorSlot>) -> bool {
    forall|i: int| 0 <= i < r.len() ==> s.contains(#[trigger] r[i])
}

/// No token occurs twice in `s`: each token stands for one entry at most.
pub open spec fn distinct_tokens(s: Seq<CursorSlot>) -> bool {
    forall|i: int, j: int| 0 <= i < j < s.len() ==> (#[trigger] s[i]).token@ != (#[trigger] s[j]).token@
}

// ---------------------------------------------------------------------------
// Facts about the model
// ---------------------------------------------------------------------------

pub proof fn lemma_live(s: Seq<CursorSlot>, t: u128)
    ensures
        live(s, t).len() <= s.len(),
        drawn_from(live(s, t), s),
        forall|i: int| 0 <= i < live(s, t).len() ==> (#[trigger] live(s, t)[i]).entry.expires_at > t,
        forall|i: int|
            0 <= i < s.len() && (#[trigger] s[i]).entry.expires_at > t ==> live(s, t).contains(s[i]),
    decreases s.len(),
{
    if s.len() > 0 {
        let p = s.drop_last();
        lemma_live(p, t);
        let r = live(s, t);
        assert forall|i: int| 0 <= i < r.len() implies s.contains(#[trigger] r[i]) by {
            if i < live(p, t).len() {
                let x = live(p, t)[i];
                assert(p.contains(x));
                let j = choose|j: int| 0 <= j < p.len() && p[j] == x;
                assert(s[j] == x);
            } else {
                assert(s[s.len() - 1] == r[i]);
            }
        }
        assert forall|i: int| 0 <= i < s.len() && (#[trigger] s[i]).entry.expires_at
            > t implies r.contains(s[i]) by {
            if i < p.len() {
                assert(p[i] == s[i]);
                assert(live(p, t).contains(p[i]));
                let j = choose|j: int| 0 <= j < live(p, t).len() && live(p, t)[j] == p[i];
                assert(r[j] == s[i]);
            } else {
                assert(r[r.len() - 1] == s[i]);
            }
        }
    }
}

pub proof fn lemma_without(s: Seq<CursorSlot>, token: Seq<char>)
    ensures
        without(s, token).len() <= s.len(),
        drawn_from(without(s, token), s),
        forall|i: int|
            0 <= i < without(s, token).len() ==> (#[trigger] without(s, token)[i]).token@ != token,
    decreases s.len(),
{
    if s.len() > 0 {
        let p = s.drop_last();
        lemma_without(p, token);
        let r = without(s, token);
        assert forall|i: int| 0 <= i < r.len() implies s.contains(#[trigger] r[i]) by {
            if i < without(p, token).len() {
                let x = without(p, token)[i];
                assert(p.contains(x));
                let j = choose|j: int| 0 <= j < p.len() && p[j] == x;
                assert(s[j] == x);
            } else {
                assert(s[s.len() - 1] == r[i]);
            }
        }
    }
}

/// Deleting a token that stands for nothing changes nothing in a store
/// that holds no expired entry. (Expired entries are dropped by every
/// operation, so they go even then.)
pub proof fn lemma_delete_absent(s: Seq<CursorSlot>, token: Seq<char>, t: u128)
    requires
        forall|i: int| 0 <= i < s.len() ==> (#[trigger] s[i]).entry.expires_at > t,
        forall|i: int| 0 <= i < s.len() ==> (#[trigger] s[i]).token@ != token,
    ensures
        after_delete(s, token, t) == s,
    decreases s.len(),
{
    if s.len() > 0 {
        let p = s.drop_last();
        assert forall|i: int| 0 <= i < p.len() implies (#[trigger] p[i]).entry.expires_at > t && p[i].token@
            != token by {
            assert(p[i] == s[i]);
        }
        lemma_delete_absent(p, token, t);
        assert(s.last() == s[s.len() - 1]);
        assert(live(s, t) == live(p, t).push(s.last()));
        assert(live(p, t) == p) by {
            lemma_all_live(p, t);
        }
        assert(p.push(s.last()) =~= s);
        assert(live(s, t) == s);
        assert(without(s, token) =~= without(p, token).push(s.last()));
        assert(without(p, token) == p);
    } else {
        assert(live(s, t) =~= s);
        assert(without(s, token) =~= s);
    }
}

/// Nothing is dropped from a store that holds no expired entry.
pub proof fn lemma_all_live(s: Seq<CursorSlot>, t: u128)
    requires
        forall|i: int| 0 <= i < s.len() ==> (#[trigger] s[i]).entry.expires_at > t,
    ensures
        live(s, t) == s,
    decreases s.len(),
{
    if s.len() > 0 {
        let p = s.drop_last();
        assert forall|i: int| 0 <= i < p.len() implies (#[trigger] p[i]).entry.expires_at > t by {
            assert(p[i] == s[i]);
        }
        lemma_all_live(p, t);
        assert(s.last() == s[s.len() - 1]);
        assert(p.push(s.last()) =~= s);
    }
}

/// Dropping what has expired leaves each token at most once.
pub proof fn lemma_live_distinct(s: Seq<CursorSlot>, t: u128)
    requires
        distinct_tokens(s),
    ensures
        distinct_tokens(live(s, t)),
    decreases s.len(),
{
    if s.len() > 0 {
        let p = s.drop_last();
        assert forall|i: int, j: int| 0 <= i < j < p.len() implies (#[trigger] p[i]).token@ != (
        #[trigger] p[j]).token@ by {
            assert(p[i] == s[i] && p[j] == s[j]);
        }
        lemma_live_distinct(p, t);
        lemma_live(p, t);
        let q = live(p, t);
        let r = live(s, t);
        assert forall|i: int, j: int| 0 <= i < j < r.len() implies (#[trigger] r[i]).token@ != (
        #[trigger] r[j]).token@ by {
            assert(r[i] == q[i]);
            if j < q.len() {
                assert(r[j] == q[j]);
            } else {
                assert(p.contains(q[i]));
                let k = choose|k: int| 0 <= k < p.len() && p[k] == q[i];
                assert(s[k] == q[i]);
                assert(r[j] == s[s.len() - 1]);
            }
        }
    }
}

/// Dropping a token leaves each other token at most once.
pub proof fn lemma_without_distinct(s: Seq<CursorSlot>, token: Seq<char>)
    requires
        distinct_tokens(s),
    ensures
        distinct_tokens(without(s, token)),
    decreases s.len(),
{
    if s.len() > 0 {
        let p = s.drop_last();
        assert forall|i: int, j: int| 0 <= i < j < p.len() implies (#[trigger] p[i]).token@ != (
        #[trigger] p[j]).token@ by {
            assert(p[i] == s[i] && p[j] == s[j]);
        }
        lemma_without_distinct(p, token);
        lemma_without(p, token);
        let q = without(p, token);
        let r = without(s, token);
        assert forall|i: int, j: int| 0 <= i < j < r.len() implies (#[trigger] r[i]).token@ != (
        #[trigger] r[j]).token@ by {
            assert(r[i] == q[i]);
            if j < q.len() {
                assert(r[j] == q[j]);
            } else {
                assert(p.contains(q[i]));
                let k = choose|k: int| 0 <= k < p.len() && p[k] == q[i];
                assert(s[k] == q[i]);
                assert(r[j] == s[s.len() - 1]);
            }
        }
    }
}

/// Evicting slots leaves each token at most once.
pub proof fn lemma_evict_distinct(s: Seq<CursorSlot>, max: nat)
    requires
        distinct_tokens(s),
    ensures
        distinct_tokens(evict(s, max)),
    decreases s.len(),
{
    if s.len() > max {
        lemma_earliest(s);
        let k = earliest(s);
        let r = s.remove(k);
        assert forall|i: int, j: int| 0 <= i < j < r.len() implies (#[trigger] r[i]).token@ != (
        #[trigger] r[j]).token@ by {
            let a = if i < k {
                i
            } else {
                i + 1
            };
            let b = if j < k {
                j
            } else {
                j + 1
            };
            assert(r[i] == s[a] && r[j] == s[b]);
        }
        lemma_evict_distinct(r, max);
    }
}

pub proof fn lemma_position(s: Seq<CursorSlot>, token: Seq<char>)
    ensures
        0 <= position(s, token) <= s.len(),
        position(s, token) < s.len() ==> s[position(s, token)].token@ == token,
        forall|i: int| 0 <= i < position(s, token) ==> (#[trigger] s[i]).token@ != token,
    decreases s.len(),
{
    if s.len() == 0 || s[0].token@ == token {
    } else {
        let t = s.drop_first();
        lemma_position(t, token);
        assert forall|i: int| 0 <= i < position(s, token) implies (#[trigger] s[i]).token@
            != token by {
            if i > 0 {
                assert(s[i] == t[i - 1]);
            }
        }
    }
}

/// An index `k` that holds `token` (or is the length) with no such slot before
/// it is the position of `token`.
pub proof fn lemma_position_unique(s: Seq<CursorSlot>, token: Seq<char>, k: int)
    requires
        0 <= k <= s.len(),
        k < s.len() ==> s[k].token@ == token,
        forall|i: int| 0 <= i < k ==> (#[trigger] s[i]).token@ != token,
    ensures
        position(s, token) == k,
    decreases s.len(),
{
    if k > 0 {
        let t = s.drop_first();
        assert(s[0].token@ != token);
        assert forall|i: int| 0 <= i < k - 1 implies (#[trigger] t[i]).token@ != token by {
            assert(t[i] == s[i + 1]);
        }
        lemma_position_unique(t, token, k - 1);
    }
}

pub proof fn lemma_earliest(s: Seq<CursorSlot>)
    requires
        s.len() > 0,
    ensures
        0 <= earliest(s) < s.len(),
        forall|i: int|
            0 <= i < s.len() ==> s[earliest(s)].entry.expires_at <= (#[trigger] s[i]).entry.expires_at,
        forall|i: int|
            0 <= i < earliest(s) ==> s[earliest(s)].entry.expires_at < (
            #[trigger] s[i]).entry.expires_at,
    decreases s.len(),
{
    if s.len() > 1 {
        let p = s.drop_last();
        lemma_earliest(p);
        let j = earliest(p);
        assert forall|i: int| 0 <= i < s.len() implies s[earliest(s)].entry.expires_at <= (
        #[trigger] s[i]).entry.expires_at by {
            if i < p.len() {
                assert(p[i] == s[i]);
            }
        }
        assert forall|i: int| 0 <= i < earliest(s) implies s[earliest(s)].entry.expires_at < (
        #[trigger] s[i]).entry.expires_at by {
            assert(p[i] == s[i]);
        }
    }
}

/// What eviction leaves: at most `max` slots, all of them slots of the store,
/// none of which expires before a slot that was evicted.
pub proof fn lemma_evict(s: Seq<CursorSlot>, max: nat)
    ensures
        evict(s, max).len() == if s.len() <= max {
            s.len()
        } else {
            max
        },
        drawn_from(evict(s, max), s),
        forall|x: CursorSlot, i: int|
            #![trigger s.contains(x), evict(s, max)[i]]
            s.contains(x) && !evict(s, max).contains(x) && 0 <= i < evict(s, max).len()
                ==> x.entry.expires_at <= evict(s, max)[i].entry.expires_at,
    decreases s.len(),
{
    let r = evict(s, max);
    if s.len() <= max {
        assert forall|i: int| 0 <= i < r.len() implies s.contains(#[trigger] r[i]) by {
            assert(s[i] == r[i]);
        }
    } else {
        let e = earliest(s);
        lemma_earliest(s);
        let rest = s.remove(e);
        lemma_evict(rest, max);
        assert forall|i: int| 0 <= i < rest.len() implies s.contains(#[trigger] rest[i]) by {
            if i < e {
                assert(s[i] == rest[i]);
            } else {
                assert(s[i + 1] == rest[i]);
            }
        }
        assert forall|i: int| 0 <= i < r.len() implies s.contains(#[trigger] r[i]) by {
            assert(rest.contains(r[i]));
            let j = choose|j: int| 0 <= j < rest.len() && rest[j] == r[i];
            assert(s.contains(rest[j]));
        }
        assert forall|x: CursorSlot, i: int|
            #![trigger s.contains(x), r[i]]
            s.contains(x) && !r.contains(x) && 0 <= i < r.len() implies x.entry.expires_at
            <= r[i].entry.expires_at by {
            let k = choose|k: int| 0 <= k < s.len() && s[k] == x;
            assert(rest.contains(r[i]));
            let j = choose|j: int| 0 <= j < rest.len() && rest[j] == r[i];
            assert(s.contains(rest[j]));
            let m = choose|m: int| 0 <= m < s.len() && s[m] == r[i];
            if k == e {
            } else {
                if k < e {
                    assert(rest[k] == x);
                } else {
                    assert(rest[k - 1] == x);
                }
                assert(rest.contains(x));
            }
        }
    }
}

/// A slot that stands last and expires no earlier than any other stays when
/// the store keeps at least one slot.
pub proof fn lemma_evict_keeps_last(s: Seq<CursorSlot>, max: nat)
    requires
        s.len() > 0,
        max > 0,
        expire_by(s, s.last().entry.expires_at),
    ensures
        evict(s, max).len() > 0,
        evict(s, max).last() == s.last(),
        drawn_from(evict(s, max).drop_last(), s.drop_last()),
    decreases s.len(),
{
    if s.len() <= max {
        assert forall|i: int| 0 <= i < s.drop_last().len() implies s.drop_last().contains(
            #[trigger] s.drop_last()[i],
        ) by {}
    } else {
        let e = earliest(s);
        lemma_earliest(s);
        assert(s.len() >= 2);
        if e == s.len() - 1 {
            assert(s[e].entry.expires_at < s[0].entry.expires_at);
            assert(false);
        }
        let rest = s.remove(e);
        assert(rest.last() == s.last());
        assert forall|i: int| 0 <= i < rest.len() implies (#[trigger] rest[i]).entry.expires_at
            <= rest.last().entry.expires_at by {
            if i < e {
                assert(rest[i] == s[i]);
            } else {
                assert(rest[i] == s[i + 1]);
            }
        }
        lemma_evict_keeps_last(rest, max);
        let r = evict(s, max);
        assert forall|i: int| 0 <= i < r.drop_last().len() implies s.drop_last().contains(
            #[trigger] r.drop_last()[i],
        ) by {
            let x = r.drop_last()[i];
            assert(rest.drop_last().contains(x));
            let j = choose|j: int| 0 <= j < rest.drop_last().len() && rest.drop_last()[j] == x;
            if j < e {
                assert(s.drop_last()[j] == x);
            } else {
                assert(s.drop_last()[j + 1] == x);
            }
        }
    }
}

/// In a store in which exactly the last slot bears `token`, the token stands
/// for the entry of that slot.
pub proof fn lemma_lookup_last(s: Seq<CursorSlot>, token: Seq<char>)
    requires
        s.len() > 0,
        s.last().token@ == token,
        forall|i: int| 0 <= i < s.len() - 1 ==> (#[trigger] s[i]).token@ != token,
    ensures
        lookup(s, token) == Some(s.last().entry),
{
    lemma_position_unique(s, token, s.len() - 1);
}

/// The first slot that bears `token` is still the first to bear it among the
/// slots that are live at `t`, if it is live itself.
pub proof fn lemma_lookup_live(s: Seq<CursorSlot>, token: Seq<char>, t: u128)
    requires
        position(s, token) < s.len(),
        s[position(s, token)].entry.expires_at > t,
    ensures
        lookup(live(s, t), token) == Some(s[position(s, token)].entry),
    decreases s.len(),
{
    let i = position(s, token);
    lemma_position(s, token);
    let p = s.drop_last();
    lemma_live(p, t);
    if i == s.len() - 1 {
        let l = live(p, t);
        assert forall|j: int| 0 <= j < l.len() implies (#[trigger] l[j]).token@ != token by {
            assert(p.contains(l[j]));
            let k = choose|k: int| 0 <= k < p.len() && p[k] == l[j];
            assert(s[k] == l[j]);
        }
        assert(live(s, t) == l.push(s.last()));
        assert forall|j: int| 0 <= j < live(s, t).len() - 1 implies (#[trigger] live(s, t)[j]).token@
            != token by {
            assert(live(s, t)[j] == l[j]);
        }
        lemma_lookup_last(live(s, t), token);
    } else {
        assert forall|j: int| 0 <= j < i implies (#[trigger] p[j]).token@ != token by {
            assert(p[j] == s[j]);
        }
        assert(p[i] == s[i]);
        lemma_position_unique(p, token, i);
        lemma_lookup_live(p, token, t);
        let l = live(p, t);
        let k = position(l, token);
        lemma_position(l, token);
        let r = live(s, t);
        assert forall|j: int| 0 <= j < k implies (#[trigger] r[j]).token@ != token by {
            assert(r[j] == l[j]);
        }
        assert(r[k] == l[k]);
        lemma_position_unique(r, token, k);
    }
}

/// No slot of `s` bears `token`: then the token stands for nothing.
pub proof fn lemma_lookup_none(s: Seq<CursorSlot>, token: Seq<char>)
    requires
        forall|i: int| 0 <= i < s.len() ==> (#[trigger] s[i]).token@ != token,
    ensures
        lookup(s, token) is None,
{
    lemma_position(s, token);
}

/// A cursor that was just created is found again, with the entry it was given,
/// at every reading of the clock before its expiry, in a store that keeps at
/// least one entry.
pub proof fn lemma_create_then_get(
    s: Seq<CursorSlot>,
    slot: CursorSlot,
    t: u128,
    t2: u128,
    ttl_seconds: u64,
    max: nat,
)
    requires
        expire_by(s, deadline(t, ttl_seconds)),
        slot.entry.expires_at == deadline(t, ttl_seconds),
        max > 0,
        t2 < deadline(t, ttl_seconds),
    ensures
        lookup(after_get(after_create(s, slot, t, max), t2), slot.token@) == Some(slot.entry),
{
    let token = slot.token@;
    let base = after_delete(s, token, t);
    let full = base.push(slot);
    lemma_live(s, t);
    lemma_without(live(s, t), token);
    assert forall|i: int| 0 <= i < full.len() implies (#[trigger] full[i]).entry.expires_at
        <= slot.entry.expires_at by {
        if i < base.len() {
            assert(full[i] == base[i]);
            assert(live(s, t).contains(base[i]));
            assert(s.contains(base[i]));
        }
    }
    lemma_evict_keeps_last(full, max);
    let r = evict(full, max);
    assert(full.drop_last() =~= base);
    assert forall|i: int| 0 <= i < r.len() - 1 implies (#[trigger] r[i]).token@ != token by {
        assert(r.drop_last()[i] == r[i]);
        assert(base.contains(r.drop_last()[i]));
    }
    lemma_position_unique(r, token, r.len() - 1);
    lemma_lookup_live(r, token, t2);
}

/// A live cursor whose offset was advanced is found again, with the new
/// offset, at every reading of the clock before its new expiry.
pub proof fn lemma_update_then_get(
    s: Seq<CursorSlot>,
    token: Seq<char>,
    offset: usize,
    t: u128,
    t2: u128,
    ttl_seconds: u64,
)
    requires
        lookup(live(s, t), token) is Some,
        t2 < deadline(t, ttl_seconds),
    ensures
        lookup(after_get(after_update(s, token, offset, t, ttl_seconds), t2), token) == Some(
            CursorEntry {
                offset,
                expires_at: deadline(t, ttl_seconds),
                ..lookup(live(s, t), token)->Some_0
            },
        ),
{
    let l = live(s, t);
    let i = position(l, token);
    lemma_position(l, token);
    let u = l.update(i, refreshed(l[i], offset, deadline(t, ttl_seconds)));
    assert forall|j: int| 0 <= j < i implies (#[trigger] u[j]).token@ != token by {
        assert(u[j] == l[j]);
    }
    lemma_position_unique(u, token, i);
    lemma_lookup_live(u, token, t2);
}

/// A cursor that was deleted stands for nothing afterwards.
pub proof fn lemma_delete_then_get(s: Seq<CursorSlot>, token: Seq<char>, t: u128, t2: u128)
    ensures
        lookup(after_get(after_delete(s, token, t), t2), token) is None,
{
    let d = after_delete(s, token, t);
    lemma_without(live(s, t), token);
    lemma_live(d, t2);
    let r = live(d, t2);
    assert forall|i: int| 0 <= i < r.len() implies (#[trigger] r[i]).token@ != token by {
        assert(d.contains(r[i]));
    }
    lemma_lookup_none(r, token);
}

/// A cursor that was created at `t` and not touched since stands for nothing
/// from its expiry on.
pub proof fn lemma_expired_is_absent(
    s: Seq<CursorSlot>,
    slot: CursorSlot,
    t: u128,
    t2: u128,
    ttl_seconds: u64,
    max: nat,
)
    requires
        slot.entry.expires_at == deadline(t, ttl_seconds),
        t2 >= deadline(t, ttl_seconds),
    ensures
        lookup(after_get(after_create(s, slot, t, max), t2), slot.token@) is None,
{
    let token = slot.token@;
    let base = after_delete(s, token, t);
    let full = base.push(slot);
    lemma_without(live(s, t), token);
    lemma_evict(full, max);
    let c = evict(full, max);
    lemma_live(c, t2);
    let r = live(c, t2);
    assert forall|i: int| 0 <= i < r.len() implies (#[trigger] r[i]).token@ != token by {
        assert(c.contains(r[i]));
        assert(full.contains(r[i]));
        let k = choose|k: int| 0 <= k < full.len() && full[k] == r[i];
        if k < base.len() {
            assert(full[k] == base[k]);
        }
    }
    lemma_lookup_none(r, token);
}

/// After a cursor was created the store holds one slot more than it held
/// live slots under other tokens, but never more than its capacity.
pub proof fn lemma_create_respects_capacity(s: Seq<CursorSlot>, slot: CursorSlot, t: u128, max: nat)
    ensures
        after_create(s, slot, t, max).len() == if after_delete(s, slot.token@, t).len() + 1 <= max {
            after_delete(s, slot.token@, t).len() + 1
        } else {
            max
        },
        after_create(s, slot, t, max).len() <= max,
{
    lemma_evict(after_delete(s, slot.token@, t).push(slot), max);
}

// ---------------------------------------------------------------------------
// The store
// ---------------------------------------------------------------------------

/// A deadline does not move back when the clock moves on.
pub proof fn lemma_deadline_monotone(a: u128, b: u128, ttl_seconds: u64)
    requires
        a <= b,
    ensures
        deadline(a, ttl_seconds) <= deadline(b, ttl_seconds),
        b <= deadline(b, ttl_seconds),
{
}

/// The slots of `slots` that have not expired at `t`.
fn purge(slots: Vec<CursorSlot>, t: u128) -> (kept: Vec<CursorSlot>)
    ensures
        kept@ == live(slots@, t),
{
    let ghost orig = slots@;
    let mut kept: Vec<CursorSlot> = Vec::new();
    proof {
        assert(orig.take(0) =~= Seq::<CursorSlot>::empty());
    }
    for slot in it: slots
        invariant
            it.seq() == orig,
            kept@ == live(orig.take(it.index()), t),
    {
        proof {
            let i = it.index();
            assert(orig.take(i + 1).drop_last() =~= orig.take(i));
            assert(orig.take(i + 1).last() == slot);
        }
        if slot.entry.expires_at > t {
            kept.push(slot);
        }
    }
    proof {
        assert(orig.take(orig.len() as int) =~= orig);
    }
    kept
}

/// The slots of `slots` that do not bear `token`.
fn drop_token(slots: Vec<CursorSlot>, token: &String) -> (kept: Vec<CursorSlot>)
    ensures
        kept@ == without(slots@, token@),
{
    let ghost orig = slots@;
    let mut kept: Vec<CursorSlot> = Vec::new();
    proof {
        assert(orig.take(0) =~= Seq::<CursorSlot>::empty());
    }
    for slot in it: slots
        invariant
            it.seq() == orig,
            kept@ == without(orig.take(it.index()), token@),
    {
        proof {
            let i = it.index();
            assert(orig.take(i + 1).drop_last() =~= orig.take(i));
            assert(orig.take(i + 1).last() == slot);
        }
        if !(slot.token == *token) {
            kept.push(slot);
        }
    }
    proof {
        assert(orig.take(orig.len() as int) =~= orig);
    }
    kept
}

/// Index of the first slot of `slots` that bears `token`.
fn find(slots: &Vec<CursorSlot>, token: &String) -> (i: usize)
    ensures
        i == position(slots@, token@),
        i <= slots.len(),
{
    let mut i: usize = 0;
    while i < slots.len() && !(slots[i].token == *token)
        invariant
            i <= slots.len(),
            forall|j: int| 0 <= j < i ==> (#[trigger] slots@[j]).token@ != token@,
        decreases slots.len() - i,
    {
        i += 1;
    }
    proof {
        lemma_position_unique(slots@, token@, i as int);
    }
    i
}

/// Index of the slot of `slots` that is evicted first.
fn find_earliest(slots: &Vec<CursorSlot>) -> (best: usize)
    requires
        slots.len() > 0,
    ensures
        best == earliest(slots@),
        best < slots.len(),
{
    let mut best: usize = 0;
    let mut i: usize = 1;
    assert(slots@.take(1).len() == 1);
    while i < slots.len()
        invariant
            1 <= i <= slots.len(),
            best == earliest(slots@.take(i as int)),
            best < i,
        decreases slots.len() - i,
    {
        proof {
            assert(slots@.take(i + 1).drop_last() =~= slots@.take(i as int));
            assert(slots@.take(i + 1).last() == slots@[i as int]);
            assert(slots@.take(i + 1)[best as int] == slots@[best as int]);
        }
        if slots[i].entry.expires_at < slots[best].entry.expires_at {
            best = i;
        }
        i += 1;
    }
    proof {
        assert(slots@.take(slots.len() as int) =~= slots@);
    }
    best
}

/// `slots` cut down to `max` slots.
fn cut(slots: Vec<CursorSlot>, max: usize) -> (kept: Vec<CursorSlot>)
    ensures
        kept@ == evict(slots@, max as nat),
{
    let mut kept = slots;
    while kept.len() > max
        invariant
            evict(kept@, max as nat) == evict(slots@, max as nat),
        decreases kept.len(),
    {
        let best = find_earliest(&kept);
        let _ = kept.remove(best);
    }
    kept
}

/// Mathematical value of a `CursorStore`.
pub struct StoreFacts {
    /// The slots, oldest first.
    pub slots: Seq<CursorSlot>,
    /// The latest clock reading seen.
    pub clock: u128,
    pub ttl_seconds: u64,
    pub max_entries: usize,
}

/// The cursor store: tokens with their entries, a time to live and a
/// capacity.
#[derive(Debug)]
pub struct CursorStore {
    ttl_seconds: u64,
    max_entries: usize,
    slots: Vec<CursorSlot>,
    clock: u128,
    origin: Instant,
}

impl CursorStore {
    /// No token occurs twice, and no entry outlives the time to live,
    /// counted from the latest reading of the clock.
    #[verifier::type_invariant]
    spec fn inv(self) -> bool {
        &&& distinct_tokens(self.slots@)
        &&& expire_by(self.slots@, deadline(self.clock, self.ttl_seconds))
    }

    /// The slots of the store, oldest first.
    pub closed spec fn slots(&self) -> Seq<CursorSlot> {
        self.slots@
    }

    /// The latest clock reading that the store has seen.
    pub closed spec fn clock(&self) -> u128 {
        self.clock
    }

    /// Seconds that an entry lives after it was created or advanced.
    pub closed spec fn ttl_seconds(&self) -> u64 {
        self.ttl_seconds
    }

    /// Largest number of entries that the store keeps.
    pub closed spec fn max_entries(&self) -> usize {
        self.max_entries
    }

    /// What the store holds and how it is set up, in one value.
    pub open spec fn facts(&self) -> StoreFacts {
        StoreFacts {
            slots: self.slots(),
            clock: self.clock(),
            ttl_seconds: self.ttl_seconds(),
            max_entries: self.max_entries(),
        }
    }

    /// A store is valid when each token stands for one entry at most and
    /// none of its entries outlives the time to live, counted from the
    /// latest reading of its clock. Every store is.
    pub open spec fn valid(&self) -> bool {
        &&& distinct_tokens(self.slots())
        &&& expire_by(self.slots(), deadline(self.clock(), self.ttl_seconds()))
    }

    /// Every store that executable code holds is valid: the call does nothing
    /// but make that known.
    pub fn known_valid(&self)
        ensures
            self.valid(),
    {
        proof {
            use_type_invariant(self);
        }
    }

    /// An empty store whose entries live `ttl_seconds` and which keeps at most
    /// `max_entries` of them.
    pub fn new(ttl_seconds: u64, max_entries: usize) -> (store: CursorStore)
        ensures
            store.slots() == Seq::<CursorSlot>::empty(),
            store.clock() == 0,
            store.ttl_seconds() == ttl_seconds,
            store.max_entries() == max_entries,
    {
        CursorStore { ttl_seconds, max_entries, slots: Vec::new(), clock: 0, origin: Instant::now() }
    }

    /// Number of entries held, expired ones included.
    pub fn len(&self) -> (n: usize)
        ensures
            n == self.slots().len(),
    {
        self.slots.len()
    }

    /// Reads the store's clock: nanoseconds since the store was made.
    ///
    /// The reading is whatever the clock says, so nothing is stated of it.
    /// What the store does at a reading is stated by `create_at`, `get_at`,
    /// `update_offset_at` and `delete_at`, for every reading.
    pub fn now(&self) -> (t: u128) {
        let elapsed = self.origin.elapsed();
        elapsed.as_nanos()
    }

    /// The reading at which an entry refreshed at `t` expires.
    fn deadline_from(&self, t: u128) -> (d: u128)
        ensures
            d == deadline(t, self.ttl_seconds()),
    {
        let span: u128 = (self.ttl_seconds as u128) * 1_000_000_000;
        if t > u128::MAX - span {
            u128::MAX
        } else {
            t + span
        }
    }

    /// Takes the slots out of the store, leaving it empty.
    fn take_slots(&mut self) -> (slots: Vec<CursorSlot>)
        ensures
            slots@ == old(self).slots(),
            distinct_tokens(slots@),
            expire_by(slots@, deadline(old(self).clock(), old(self).ttl_seconds())),
            final(self).slots() == Seq::<CursorSlot>::empty(),
            final(self).clock() == old(self).clock(),
            final(self).ttl_seconds() == old(self).ttl_seconds(),
            final(self).max_entries() == old(self).max_entries(),
    {
        proof {
            use_type_invariant(&*self);
        }
        let mut slots: Vec<CursorSlot> = Vec::new();
        std::mem::swap(&mut self.slots, &mut slots);
        slots
    }

    /// Puts `slots` into the empty store and sets its clock to `t`.
    fn put_slots(&mut self, slots: Vec<CursorSlot>, t: u128)
        requires
            old(self).slots().len() == 0,
            distinct_tokens(slots@),
            expire_by(slots@, deadline(t, old(self).ttl_seconds())),
        ensures
            final(self).slots() == slots@,
            final(self).clock() == t,
            final(self).ttl_seconds() == old(self).ttl_seconds(),
            final(self).max_entries() == old(self).max_entries(),
    {
        self.clock = t;
        self.slots = slots;
    }

    /// Stores `entry` under the token `token` at the clock reading `now`.
    ///
    /// What has expired is dropped, an entry that the token stood for is
    /// replaced, the new entry gets a full time to live, and the store is cut
    /// down to its capacity. The new entry itself stays unless the store keeps
    /// no entry at all.
    pub fn create_at(&mut self, token: String, entry: CursorEntry, now: u128)
        ensures
            final(self).clock() == later(old(self).clock(), now),
            final(self).ttl_seconds() == old(self).ttl_seconds(),
            final(self).max_entries() == old(self).max_entries(),
            final(self).slots() == after_create(
                old(self).slots(),
                CursorSlot {
                    token,
                    entry: CursorEntry {
                        expires_at: deadline(final(self).clock(), old(self).ttl_seconds()),
                        ..entry
                    },
                },
                final(self).clock(),
                old(self).max_entries() as nat,
            ),
            final(self).slots().len() <= old(self).max_entries(),
            old(self).max_entries() > 0 ==> lookup(final(self).slots(), token@) == Some(
                CursorEntry {
                    expires_at: deadline(final(self).clock(), old(self).ttl_seconds()),
                    ..entry
                },
            ),
    {
        let t = if now > self.clock {
            now
        } else {
            self.clock
        };
        let d = self.deadline_from(t);
        let max = self.max_entries;
        let slots = self.take_slots();
        let ghost orig = slots@;
        let ghost old_bound = deadline(old(self).clock(), old(self).ttl_seconds());
        let slots = purge(slots, t);
        let mut slots = drop_token(slots, &token);
        let mut entry = entry;
        entry.expires_at = d;
        let slot = CursorSlot { token, entry };
        let ghost before = slots@;
        slots.push(slot);
        proof {
            lemma_deadline_monotone(old(self).clock(), t, old(self).ttl_seconds());
            lemma_live(orig, t);
            lemma_without(live(orig, t), slot.token@);
            let s = slots@;
            assert forall|i: int| 0 <= i < s.len() implies (#[trigger] s[i]).entry.expires_at
                <= d by {
                if i < before.len() {
                    assert(s[i] == before[i]);
                    assert(live(orig, t).contains(before[i]));
                    assert(orig.contains(before[i]));
                }
            }
            lemma_evict(s, max as nat);
            let r = evict(s, max as nat);
            assert forall|i: int| 0 <= i < r.len() implies (#[trigger] r[i]).entry.expires_at
                <= d by {
                assert(s.contains(r[i]));
            }
            lemma_live_distinct(orig, t);
            lemma_without_distinct(live(orig, t), slot.token@);
            assert forall|i: int, j: int| 0 <= i < j < s.len() implies (#[trigger] s[i]).token@ != (
            #[trigger] s[j]).token@ by {
                assert(s[i] == before[i]);
                if j < before.len() {
                    assert(s[j] == before[j]);
                }
            }
            lemma_evict_distinct(s, max as nat);
            if max > 0 {
                lemma_evict_keeps_last(s, max as nat);
                assert(s.drop_last() =~= before);
                assert forall|i: int| 0 <= i < r.len() - 1 implies (#[trigger] r[i]).token@
                    != slot.token@ by {
                    assert(r.drop_last()[i] == r[i]);
                    assert(before.contains(r.drop_last()[i]));
                }
                lemma_lookup_last(r, slot.token@);
            }
        }
        let slots = cut(slots, max);
        self.put_slots(slots, t);
    }

    /// The entry that `cursor` stands for at the clock reading `now`, if it
    /// has not expired. What has expired by then is dropped.
    pub fn get_at(&mut self, cursor: &str, now: u128) -> (r: Option<CursorEntry>)
        ensures
            final(self).clock() == later(old(self).clock(), now),
            final(self).ttl_seconds() == old(self).ttl_seconds(),
            final(self).max_entries() == old(self).max_entries(),
            final(self).slots() == after_get(old(self).slots(), final(self).clock()),
            match lookup(final(self).slots(), cursor@) {
                Some(e) => r is Some && r->Some_0@ == e@,
                None => r is None,
            },
    {
        let t = if now > self.clock {
            now
        } else {
            self.clock
        };
        let slots = self.take_slots();
        let ghost orig = slots@;
        let slots = purge(slots, t);
        let token = cursor.to_owned();
        let i = find(&slots, &token);
        let r = if i < slots.len() {
            Some(slots[i].entry.duplicate())
        } else {
            None
        };
        proof {
            lemma_deadline_monotone(old(self).clock(), t, old(self).ttl_seconds());
            lemma_live(orig, t);
            lemma_live_distinct(orig, t);
            assert forall|j: int| 0 <= j < slots@.len() implies (
            #[trigger] slots@[j]).entry.expires_at <= deadline(t, old(self).ttl_seconds()) by {
                assert(orig.contains(slots@[j]));
            }
        }
        self.put_slots(slots, t);
        r
    }

    /// Moves the offset of `cursor` to `offset` at the clock reading `now` and
    /// gives the entry a full time to live. An unknown or expired cursor is
    /// passed over in silence.
    pub fn update_offset_at(&mut self, cursor: &str, offset: usize, now: u128)
        ensures
            final(self).clock() == later(old(self).clock(), now),
            final(self).ttl_seconds() == old(self).ttl_seconds(),
            final(self).max_entries() == old(self).max_entries(),
            final(self).slots() == after_update(
                old(self).slots(),
                cursor@,
                offset,
                final(self).clock(),
                old(self).ttl_seconds(),
            ),
    {
        let t = if now > self.clock {
            now
        } else {
            self.clock
        };
        let d = self.deadline_from(t);
        let slots = self.take_slots();
        let ghost orig = slots@;
        let mut slots = purge(slots, t);
        let token = cursor.to_owned();
        let i = find(&slots, &token);
        let ghost before = slots@;
        proof {
            lemma_deadline_monotone(old(self).clock(), t, old(self).ttl_seconds());
            lemma_live(orig, t);
            lemma_live_distinct(orig, t);
            assert forall|j: int| 0 <= j < before.len() implies (
            #[trigger] before[j]).entry.expires_at <= d by {
                assert(orig.contains(before[j]));
            }
        }
        if i < slots.len() {
            let mut slot = slots.remove(i);
            slot.entry.offset = offset;
            slot.entry.expires_at = d;
            slots.insert(i, slot);
            proof {
                let s = slots@;
                assert(s =~= before.update(i as int, refreshed(before[i as int], offset, d)));
                assert forall|j: int| 0 <= j < s.len() implies (#[trigger] s[j]).entry.expires_at
                    <= d by {
                    if j != i {
                        assert(s[j] == before[j]);
                    }
                }
                assert forall|a: int, b: int| 0 <= a < b < s.len() implies (#[trigger] s[a]).token@
                    != (#[trigger] s[b]).token@ by {
                    assert(s[a].token == before[a].token && s[b].token == before[b].token);
                }
            }
        }
        self.put_slots(slots, t);
    }

    /// Deletes `cursor` at the clock reading `now`. An unknown cursor is passed
    /// over in silence.
    pub fn delete_at(&mut self, cursor: &str, now: u128)
        ensures
            final(self).clock() == later(old(self).clock(), now),
            final(self).ttl_seconds() == old(self).ttl_seconds(),
            final(self).max_entries() == old(self).max_entries(),
            final(self).slots() == after_delete(old(self).slots(), cursor@, final(self).clock()),
            lookup(final(self).slots(), cursor@) is None,
    {
        let t = if now > self.clock {
            now
        } else {
            self.clock
        };
        let slots = self.take_slots();
        let ghost orig = slots@;
        let slots = purge(slots, t);
        let token = cursor.to_owned();
        let slots = drop_token(slots, &token);
        proof {
            lemma_deadline_monotone(old(self).clock(), t, old(self).ttl_seconds());
            lemma_live(orig, t);
            lemma_live_distinct(orig, t);
            lemma_without_distinct(live(orig, t), cursor@);
            lemma_without(live(orig, t), cursor@);
            lemma_position(slots@, cursor@);
            assert forall|j: int| 0 <= j < slots@.len() implies (
            #[trigger] slots@[j]).entry.expires_at <= deadline(t, old(self).ttl_seconds()) by {
                assert(live(orig, t).contains(slots@[j]));
                assert(orig.contains(slots@[j]));
            }
        }
        self.put_slots(slots, t);
    }

    /// Stores `entry` under a token drawn at random and returns the token.
    ///
    /// The store is read at some instant of its clock; what holds afterwards
    /// is what `create_at` states for the token returned.
    pub fn create(&mut self, entry: CursorEntry) -> (token: String)
        ensures
            token@.len() == 36,
            final(self).ttl_seconds() == old(self).ttl_seconds(),
            final(self).max_entries() == old(self).max_entries(),
            final(self).clock() >= old(self).clock(),
            final(self).slots() == after_create(
                old(self).slots(),
                CursorSlot {
                    token,
                    entry: CursorEntry {
                        expires_at: deadline(final(self).clock(), old(self).ttl_seconds()),
                        ..entry
                    },
                },
                final(self).clock(),
                old(self).max_entries() as nat,
            ),
            final(self).slots().len() <= old(self).max_entries(),
            old(self).max_entries() > 0 ==> lookup(final(self).slots(), token@) == Some(
                CursorEntry {
                    expires_at: deadline(final(self).clock(), old(self).ttl_seconds()),
                    ..entry
                },
            ),
    {
        let now = self.now();
        let token = fresh_token();
        let copy = token.clone();
        self.create_at(token, entry, now);
        copy
    }

    /// The entry that `cursor` stands for, if it has not expired by now.
    pub fn get(&mut self, cursor: &str) -> (r: Option<CursorEntry>)
        ensures
            final(self).clock() >= old(self).clock(),
            final(self).ttl_seconds() == old(self).ttl_seconds(),
            final(self).max_entries() == old(self).max_entries(),
            final(self).slots() == after_get(old(self).slots(), final(self).clock()),
            match lookup(final(self).slots(), cursor@) {
                Some(e) => r is Some && r->Some_0@ == e@,
                None => r is None,
            },
    {
        let now = self.now();
        self.get_at(cursor, now)
    }

    /// Moves the offset of `cursor` to `offset` and gives the entry a full time
    /// to live, counted from now.
    pub fn update_offset(&mut self, cursor: &str, offset: usize)
        ensures
            final(self).clock() >= old(self).clock(),
            final(self).ttl_seconds() == old(self).ttl_seconds(),
            final(self).max_entries() == old(self).max_entries(),
            final(self).slots() == after_update(
                old(self).slots(),
                cursor@,
                offset,
                final(self).clock(),
                old(self).ttl_seconds(),
            ),
    {
        let now = self.now();
        self.update_offset_at(cursor, offset, now)
    }

    /// Deletes `cursor`.
    pub fn delete(&mut self, cursor: &str)
        ensures
            final(self).clock() >= old(self).clock(),
            final(self).ttl_seconds() == old(self).ttl_seconds(),
            final(self).max_entries() == old(self).max_entries(),
            final(self).slots() == after_delete(old(self).slots(), cursor@, final(self).clock()),
            lookup(final(self).slots(), cursor@) is None,
    {
        let now = self.now();
        self.delete_at(cursor, now)
    }
}

} // verus!
