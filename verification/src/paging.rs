//! Whole searches: the steps of one call, from the request to the report.
//!
//! A call of the search is a run of steps. Each step but the last names a
//! command, and the next step follows the reply to it. The laws of this
//! module say what the report of a run is, whatever single fetches fail.

use crate::config::ServerConfig;
use crate::engine::{is_select_readonly, issue_views, Command, Reply, Step};
use crate::mime::opt_text;
use crate::models::{MessageSummary, SearchMessagesInput};
use crate::pagination::{
    after_create, after_get, deadline, expire_by, later, lemma_create_then_get,
    lemma_deadline_monotone, lookup, CursorEntry, CursorSlot, StoreFacts,
};
use crate::errors::AppResult;
use crate::report::ToolIssue;
use crate::search::{
    captured, cursor_after_page, cursor_resumed, cursors_after_page, issues_with, messages_with,
    page_advanced, page_begun, page_end, page_reported, page_size, page_sound, search_begun,
    search_resumed, snippet_length, store_at, summarized, Moment, SearchPhase, SearchResultData,
    SearchSnapshot, SearchState, MAX_CURSOR_UIDS_STORED,
};
use vstd::prelude::*;

verus! {

/// The step `next` follows the reply `reply` to the command that `step`
/// names, and leaves the cursor store `before` as `after`.
#[verifier::opaque]
pub open spec fn follows(
    step: Step<SearchState, SearchResultData>,
    next: Step<SearchState, SearchResultData>,
    before: StoreFacts,
    after: StoreFacts,
    reply: Reply,
    moment: Moment,
) -> bool {
    step matches Step::Send(s, c) && search_resumed(next, before, after, s, reply, moment)
}

/// The steps `steps` are a run of the search: each step but the last names
/// a command, `replies[k]` is the reply to the command of `steps[k]`, and
/// `steps[k + 1]` follows it at the moment `moments[k]`, which leaves the
/// cursor store `stores[k]` as `stores[k + 1]`.
pub open spec fn search_run(
    steps: Seq<Step<SearchState, SearchResultData>>,
    stores: Seq<StoreFacts>,
    replies: Seq<Reply>,
    moments: Seq<Moment>,
) -> bool {
    &&& steps.len() == replies.len() + 1
    &&& stores.len() == replies.len() + 1
    &&& moments.len() == replies.len()
    &&& forall|k: int|
        #![trigger steps[k]]
        0 <= k < replies.len() ==> follows(
            steps[k],
            steps[k + 1],
            stores[k],
            stores[k + 1],
            replies[k],
            moments[k],
        )
}

/// The step `step` asks for the headers and flags of the message `uid`.
pub open spec fn asks_for(step: Step<SearchState, SearchResultData>, uid: u32) -> bool {
    step matches Step::Send(s, c) && c == (Command::FetchHeadersAndFlags { uid })
}

/// The summary `messages[i]` is that of the match at `at[i]`, which lies in
/// `from..to`, and the matches come in their order.
pub open spec fn placed(
    messages: Seq<MessageSummary>,
    uids: Seq<u32>,
    from: int,
    to: int,
    at: Seq<int>,
) -> bool {
    &&& at.len() == messages.len()
    &&& forall|i: int|
        0 <= i < at.len() ==> from <= #[trigger] at[i] < to && messages[i].uid == uids[at[i]]
    &&& forall|i: int, j: int| 0 <= i < j < at.len() ==> #[trigger] at[i] < #[trigger] at[j]
}

/// The summaries `messages` are summaries of matches among `uids[from..to]`,
/// in the order of the matches and none of them twice.
pub open spec fn in_order(
    messages: Seq<MessageSummary>,
    uids: Seq<u32>,
    from: int,
    to: int,
) -> bool {
    exists|at: Seq<int>| #[trigger] placed(messages, uids, from, to, at)
}

/// The step `step` asks for the summary of the match at `position` of the
/// page that begins where `snapshot` says and ends at `end`, with the
/// summaries of earlier matches of the page in hand.
pub open spec fn fetching_at(
    step: Step<SearchState, SearchResultData>,
    input: SearchMessagesInput,
    epoch: u32,
    snapshot: SearchSnapshot,
    end: int,
    position: int,
) -> bool {
    &&& step matches Step::Send(s, c)
    &&& s.input == input
    &&& s.phase matches SearchPhase::Fetching { page }
    &&& page.epoch == epoch
    &&& page.snapshot == snapshot
    &&& page.end == end
    &&& page.position == position
    &&& page_sound(page)
    &&& c == (Command::FetchHeadersAndFlags { uid: snapshot.uids_desc@[position] })
    &&& in_order(page.messages@, snapshot.uids_desc@, snapshot.offset as int, position)
}

/// The report `r` is that of the page of `snapshot` that ends at `end`:
/// it counts every match of the page as returned or failed, and its
/// summaries are of matches of the page, in their order.
pub open spec fn page_accounted(
    r: SearchResultData,
    snapshot: SearchSnapshot,
    end: int,
    moment: Moment,
) -> bool {
    &&& r.total == snapshot.uids_desc@.len()
    &&& r.attempted == end - snapshot.offset
    &&& r.returned + r.failed == r.attempted
    &&& r.returned == r.messages@.len()
    &&& in_order(r.messages@, snapshot.uids_desc@, snapshot.offset as int, end)
    &&& r.has_more == (end < snapshot.uids_desc@.len())
    &&& opt_text(r.next_cursor) == cursor_after_page(snapshot, end as usize, moment)
}

proof fn lemma_in_order_more(
    messages: Seq<MessageSummary>,
    uids: Seq<u32>,
    from: int,
    to: int,
    out: Result<MessageSummary, ToolIssue>,
)
    requires
        in_order(messages, uids, from, to),
        from <= to < uids.len(),
        out matches Ok(m) ==> m.uid == uids[to],
    ensures
        in_order(messages_with(messages, out), uids, from, to + 1),
{
    let at = choose|at: Seq<int>| #[trigger] placed(messages, uids, from, to, at);
    match out {
        Ok(m) => {
            let more = at.push(to);
            let all = messages.push(m);
            assert forall|i: int| 0 <= i < more.len() implies from <= #[trigger] more[i] < to + 1
                && all[i].uid == uids[more[i]] by {
                if i < at.len() {
                    assert(more[i] == at[i]);
                    assert(all[i] == messages[i]);
                }
            }
            assert forall|i: int, j: int| 0 <= i < j < more.len() implies #[trigger] more[i]
                < #[trigger] more[j] by {
                assert(more[i] == at[i]);
                if j < at.len() {
                    assert(more[j] == at[j]);
                }
            }
            assert(placed(all, uids, from, to + 1, more));
        },
        Err(_) => {
            assert(placed(messages, uids, from, to + 1, at));
        },
    }
}

/// Only a step that names a command is followed by another.
pub proof fn lemma_follows_a_command(
    step: Step<SearchState, SearchResultData>,
    next: Step<SearchState, SearchResultData>,
    before: StoreFacts,
    after: StoreFacts,
    reply: Reply,
    moment: Moment,
)
    requires
        follows(step, next, before, after, reply, moment),
    ensures
        step is Send,
        search_resumed(next, before, after, step->Send_0, reply, moment),
{
    reveal(follows);
}

/// What one fetch makes of a page: the fetch of the next match, or the
/// report of the page after its last match.
proof fn lemma_one_fetch(
    step: Step<SearchState, SearchResultData>,
    next: Step<SearchState, SearchResultData>,
    before: StoreFacts,
    after: StoreFacts,
    reply: Reply,
    moment: Moment,
    input: SearchMessagesInput,
    epoch: u32,
    snapshot: SearchSnapshot,
    end: int,
    position: int,
)
    requires
        fetching_at(step, input, epoch, snapshot, end, position),
        follows(step, next, before, after, reply, moment),
        reply is HeadersAndFlags,
    ensures
        position + 1 < end ==> fetching_at(next, input, epoch, snapshot, end, position + 1) && after
            == before,
        position + 1 >= end ==> position + 1 == end && (next matches Step::Finish(Ok(r))
            && page_accounted(r, snapshot, end, moment)) && after == cursors_after_page(
            before,
            input,
            epoch,
            snapshot,
            end as usize,
            moment,
        ),
{
    reveal(follows);
    let s = step->Send_0;
    let page = s.phase->Fetching_page;
    let fetched = reply->HeadersAndFlags_0;
    let uid = page.snapshot.uids_desc@[page.position as int];
    assert(search_resumed(next, before, after, s, reply, moment));
    assert(page_sound(page));
    let out = choose|out: Result<MessageSummary, ToolIssue>|
        #[trigger] summarized(
            out,
            input.account_id@,
            input.mailbox@,
            page.epoch,
            uid,
            fetched,
            page.snapshot.include_snippet,
            page.snapshot.snippet_max_chars,
        ) && page_advanced(next, before, after, input, page, out, moment);
    assert(page_advanced(next, before, after, input, page, out, moment));
    assert(out matches Ok(m) ==> m.uid == uid);
    lemma_in_order_more(
        page.messages@,
        snapshot.uids_desc@,
        snapshot.offset as int,
        position,
        out,
    );
    let messages = messages_with(page.messages@, out);
    let issues = issues_with(issue_views(page.issues@), out);
    assert(issue_views(page.issues@).len() == page.issues@.len());
    assert(messages.len() + issues.len() == position + 1 - snapshot.offset);
    if position + 1 < end {
        let ns = next->Send_0;
        let np = ns.phase->Fetching_page;
        assert(issue_views(np.issues@).len() == np.issues@.len());
        assert(np.messages@ == messages);
        assert(page_sound(np));
    } else {
        let r = next->Finish_0->Ok_0;
        assert(page_reported(r, input, snapshot, end as usize, messages, issues, moment));
    }
}

/// In a run whose step `base` asks for the first summary of a page, the
/// step `j` asks for the summary of the match `j - base` places further on,
/// and the cursor store is left alone on the way.
proof fn lemma_fetch_steps(
    steps: Seq<Step<SearchState, SearchResultData>>,
    stores: Seq<StoreFacts>,
    replies: Seq<Reply>,
    moments: Seq<Moment>,
    input: SearchMessagesInput,
    epoch: u32,
    snapshot: SearchSnapshot,
    end: int,
    base: int,
    j: int,
)
    requires
        search_run(steps, stores, replies, moments),
        0 <= base <= j < replies.len(),
        fetching_at(steps[base], input, epoch, snapshot, end, snapshot.offset as int),
        forall|k: int| base <= k < replies.len() ==> (#[trigger] replies[k]) is HeadersAndFlags,
    ensures
        fetching_at(steps[j], input, epoch, snapshot, end, snapshot.offset + j - base),
        stores[j] == stores[base],
    decreases j - base,
{
    if j > base {
        lemma_fetch_steps(
            steps,
            stores,
            replies,
            moments,
            input,
            epoch,
            snapshot,
            end,
            base,
            j - 1,
        );
        assert(follows(
            steps[j - 1],
            steps[j],
            stores[j - 1],
            stores[j],
            replies[j - 1],
            moments[j - 1],
        ));
        assert(follows(steps[j], steps[j + 1], stores[j], stores[j + 1], replies[j], moments[j]));
        lemma_follows_a_command(
            steps[j],
            steps[j + 1],
            stores[j],
            stores[j + 1],
            replies[j],
            moments[j],
        );
        assert(replies[j - 1] is HeadersAndFlags);
        lemma_one_fetch(
            steps[j - 1],
            steps[j],
            stores[j - 1],
            stores[j],
            replies[j - 1],
            moments[j - 1],
            input,
            epoch,
            snapshot,
            end,
            snapshot.offset + j - 1 - base,
        );
    }
}

/// A run that fetches a page ends with the report of that page.
///
/// If the step `base` of a run asks for the first summary of a page, every
/// later reply answers a fetch, and the run ends, then it ends after one
/// fetch for each match of the page, in the order of the matches, with a
/// report that accounts for every match of the page, whatever single
/// fetches fail. The cursor store is left alone until the last step, which
/// leaves it as the end of a page does.
pub proof fn lemma_page_run(
    steps: Seq<Step<SearchState, SearchResultData>>,
    stores: Seq<StoreFacts>,
    replies: Seq<Reply>,
    moments: Seq<Moment>,
    input: SearchMessagesInput,
    epoch: u32,
    snapshot: SearchSnapshot,
    end: int,
    base: int,
)
    requires
        search_run(steps, stores, replies, moments),
        0 <= base <= replies.len(),
        fetching_at(steps[base], input, epoch, snapshot, end, snapshot.offset as int),
        forall|k: int| base <= k < replies.len() ==> (#[trigger] replies[k]) is HeadersAndFlags,
        steps.last() is Finish,
    ensures
        replies.len() - base == end - snapshot.offset,
        forall|j: int|
            base <= j < replies.len() ==> asks_for(
                #[trigger] steps[j],
                snapshot.uids_desc@[snapshot.offset + j - base],
            ) && stores[j] == stores[base],
        steps.last() matches Step::Finish(Ok(r)) && page_accounted(
            r,
            snapshot,
            end,
            moments.last(),
        ),
        stores.last() == cursors_after_page(
            stores[base],
            input,
            epoch,
            snapshot,
            end as usize,
            moments.last(),
        ),
{
    let n = replies.len() as int;
    assert(steps.last() == steps[n]);
    assert(base < n);
    assert forall|j: int| base <= j < n implies asks_for(
        #[trigger] steps[j],
        snapshot.uids_desc@[snapshot.offset + j - base],
    ) && stores[j] == stores[base] by {
        lemma_fetch_steps(steps, stores, replies, moments, input, epoch, snapshot, end, base, j);
    }
    lemma_fetch_steps(steps, stores, replies, moments, input, epoch, snapshot, end, base, n - 1);
    assert(follows(
        steps[n - 1],
        steps[n],
        stores[n - 1],
        stores[n],
        replies[n - 1],
        moments[n - 1],
    ));
    assert(replies[n - 1] is HeadersAndFlags);
    lemma_one_fetch(
        steps[n - 1],
        steps[n],
        stores[n - 1],
        stores[n],
        replies[n - 1],
        moments[n - 1],
        input,
        epoch,
        snapshot,
        end,
        snapshot.offset + n - 1 - base,
    );
    assert(moments.last() == moments[n - 1]);
    assert(stores.last() == stores[n]);
}

/// The snapshot of a new search with the matches `uids`.
pub open spec fn first_snapshot(input: SearchMessagesInput, uids: Vec<u32>) -> SearchSnapshot {
    SearchSnapshot {
        uids_desc: uids,
        offset: 0,
        include_snippet: input.include_snippet,
        snippet_max_chars: snippet_length(input.snippet_max_chars),
        cursor_id_from_request: None,
    }
}

/// The number of matches on a page for a request that asks for `limit`,
/// when `rest` matches are left: a full page, or what is left.
pub open spec fn page_length(limit: usize, rest: int) -> int {
    if rest <= page_size(limit) {
        rest
    } else {
        page_size(limit) as int
    }
}

/// The step `step` names a search command.
pub open spec fn names_search(step: Step<SearchState, SearchResultData>) -> bool {
    step matches Step::Send(s, c) && c is Search
}

/// After the session is open the mailbox is selected for reading.
proof fn lemma_connected(
    step: Step<SearchState, SearchResultData>,
    next: Step<SearchState, SearchResultData>,
    before: StoreFacts,
    after: StoreFacts,
    reply: Reply,
    moment: Moment,
)
    requires
        follows(step, next, before, after, reply, moment),
        step->Send_0.phase is Connecting,
        reply matches Reply::Done(Ok(_)),
    ensures
        next matches Step::Send(s, c) && s.input == step->Send_0.input && s.phase is Selecting
            && is_select_readonly(c, s.input.mailbox@),
        after == before,
{
    reveal(follows);
}

/// After the mailbox is selected a request without a cursor is searched
/// for, if the run goes on.
proof fn lemma_selected_anew(
    step: Step<SearchState, SearchResultData>,
    next: Step<SearchState, SearchResultData>,
    before: StoreFacts,
    after: StoreFacts,
    reply: Reply,
    moment: Moment,
    epoch: u32,
)
    requires
        follows(step, next, before, after, reply, moment),
        step->Send_0.phase is Selecting,
        step->Send_0.input.cursor is None,
        reply == Reply::Epoch(Ok(epoch)),
        next is Send,
    ensures
        next matches Step::Send(s, c) && s.input == step->Send_0.input && s.phase == (
        SearchPhase::Searching { epoch }) && c is Search,
        after == before,
{
    reveal(follows);
}

/// After the search the page of its first matches begins.
proof fn lemma_searched(
    step: Step<SearchState, SearchResultData>,
    next: Step<SearchState, SearchResultData>,
    before: StoreFacts,
    after: StoreFacts,
    reply: Reply,
    moment: Moment,
    epoch: u32,
    uids: Vec<u32>,
)
    requires
        follows(step, next, before, after, reply, moment),
        step->Send_0.phase == (SearchPhase::Searching { epoch }),
        reply == Reply::Uids(Ok(uids)),
        uids@.len() <= MAX_CURSOR_UIDS_STORED,
    ensures
        page_begun(
            next,
            before,
            after,
            step->Send_0.input,
            epoch,
            first_snapshot(step->Send_0.input, uids),
            moment,
        ),
{
    reveal(follows);
}

/// After the mailbox is selected a live cursor of the same account, the
/// same mailbox and the same epoch is taken up where it stands.
proof fn lemma_selected_again(
    step: Step<SearchState, SearchResultData>,
    next: Step<SearchState, SearchResultData>,
    before: StoreFacts,
    after: StoreFacts,
    reply: Reply,
    moment: Moment,
    epoch: u32,
    entry: CursorEntry,
) -> (snapshot: SearchSnapshot)
    requires
        follows(step, next, before, after, reply, moment),
        step->Send_0.phase is Selecting,
        step->Send_0.input.cursor is Some,
        reply == Reply::Epoch(Ok(epoch)),
        lookup(
            after_get(before.slots, later(before.clock, moment.now)),
            step->Send_0.input.cursor->Some_0@,
        ) == Some(entry),
        entry.account_id@ == step->Send_0.input.account_id@,
        entry.mailbox@ == step->Send_0.input.mailbox@,
        entry.uidvalidity == epoch,
    ensures
        snapshot.uids_desc@ == entry.uids_desc@,
        snapshot.offset == entry.offset,
        opt_text(snapshot.cursor_id_from_request) == Some(step->Send_0.input.cursor->Some_0@),
        page_begun(
            next,
            store_at(before, after_get(before.slots, later(before.clock, moment.now)), moment.now),
            after,
            step->Send_0.input,
            epoch,
            snapshot,
            moment,
        ),
{
    reveal(follows);
    let input = step->Send_0.input;
    let cursor = input.cursor->Some_0;
    let (taken, mid) = choose|taken: AppResult<SearchSnapshot>, mid: StoreFacts|
        {
            &&& #[trigger] cursor_resumed(taken, before, mid, input, epoch, cursor@, moment.now)
            &&& match taken {
                Err(e) => after == mid && next == Step::<SearchState, SearchResultData>::Finish(
                    Err(e),
                ),
                Ok(snapshot) => page_begun(next, mid, after, input, epoch, snapshot, moment),
            }
        };
    taken->Ok_0
}

/// What the beginning of a page is: with matches left, the fetch of the
/// first of them; with none left, the report of an empty page.
proof fn lemma_page_begins(
    next: Step<SearchState, SearchResultData>,
    before: StoreFacts,
    after: StoreFacts,
    input: SearchMessagesInput,
    epoch: u32,
    snapshot: SearchSnapshot,
    moment: Moment,
)
    requires
        page_begun(next, before, after, input, epoch, snapshot, moment),
        snapshot.offset <= snapshot.uids_desc@.len(),
    ensures
        ({
            let rest = snapshot.uids_desc@.len() - snapshot.offset;
            let end = snapshot.offset + page_length(input.limit, rest);
            if rest == 0 {
                (next matches Step::Finish(Ok(r)) && page_accounted(r, snapshot, end, moment))
                    && after == cursors_after_page(
                    before,
                    input,
                    epoch,
                    snapshot,
                    end as usize,
                    moment,
                )
            } else {
                fetching_at(next, input, epoch, snapshot, end, snapshot.offset as int) && after
                    == before
            }
        }),
{
    let rest = snapshot.uids_desc@.len() - snapshot.offset;
    let end = snapshot.offset + page_length(input.limit, rest);
    assert(snapshot.uids_desc@.len() == snapshot.uids_desc.len());
    assert(end == page_end(snapshot.uids_desc@.len() as usize, snapshot.offset, input.limit));
    let none = Seq::<MessageSummary>::empty();
    let at = Seq::<int>::empty();
    assert(placed(none, snapshot.uids_desc@, snapshot.offset as int, snapshot.offset as int, at));
    if rest == 0 {
        let r = next->Finish_0->Ok_0;
        assert(r.messages@ == none);
    } else {
        let page = next->Send_0.phase->Fetching_page;
        assert(page.messages@ == none);
        assert(issue_views(page.issues@).len() == page.issues@.len());
    }
}

/// The first page of a search with more matches than a page holds.
///
/// A run of a request without a cursor, in which the session is opened, the
/// mailbox is selected in the epoch `epoch`, the search gives the matches
/// `uids`, more than a page holds and no more than a cursor captures, and
/// every later reply answers a fetch, ends after one fetch for each match
/// of the first page, in their order. Its report says that more matches
/// are left, names the token of the last moment as the cursor, and counts
/// every match and a full page attempted, whatever single fetches fail. The
/// cursor store is left as the end of that page leaves it: with the matches
/// captured under the token, at the end of the page.
pub proof fn lemma_first_page_of_many(
    config: ServerConfig,
    input: SearchMessagesInput,
    steps: Seq<Step<SearchState, SearchResultData>>,
    stores: Seq<StoreFacts>,
    replies: Seq<Reply>,
    moments: Seq<Moment>,
    epoch: u32,
    uids: Vec<u32>,
)
    requires
        search_run(steps, stores, replies, moments),
        search_begun(steps[0], config, input),
        steps.last() is Finish,
        input.cursor is None,
        replies.len() >= 3,
        replies[0] matches Reply::Done(Ok(_)),
        replies[1] == Reply::Epoch(Ok(epoch)),
        replies[2] == Reply::Uids(Ok(uids)),
        forall|k: int| 3 <= k < replies.len() ==> (#[trigger] replies[k]) is HeadersAndFlags,
        page_size(input.limit) < uids@.len() <= MAX_CURSOR_UIDS_STORED,
    ensures
        replies.len() == 3 + page_size(input.limit),
        forall|j: int| 3 <= j < replies.len() ==> asks_for(#[trigger] steps[j], uids@[j - 3]),
        steps.last() matches Step::Finish(Ok(r)) && r.has_more && opt_text(r.next_cursor) == Some(
            moments.last().token@,
        ) && r.total == uids@.len() && r.attempted == page_size(input.limit) && r.returned
            + r.failed == r.attempted && in_order(
            r.messages@,
            uids@,
            0,
            page_size(input.limit) as int,
        ),
        stores.last() == cursors_after_page(
            stores[0],
            input,
            epoch,
            first_snapshot(input, uids),
            page_size(input.limit),
            moments.last(),
        ),
{
    let snapshot = first_snapshot(input, uids);
    assert(follows(steps[0], steps[1], stores[0], stores[1], replies[0], moments[0]));
    assert(follows(steps[1], steps[2], stores[1], stores[2], replies[1], moments[1]));
    assert(follows(steps[2], steps[3], stores[2], stores[3], replies[2], moments[2]));
    lemma_follows_a_command(steps[0], steps[1], stores[0], stores[1], replies[0], moments[0]);
    lemma_connected(steps[0], steps[1], stores[0], stores[1], replies[0], moments[0]);
    lemma_follows_a_command(steps[2], steps[3], stores[2], stores[3], replies[2], moments[2]);
    lemma_selected_anew(steps[1], steps[2], stores[1], stores[2], replies[1], moments[1], epoch);
    lemma_searched(steps[2], steps[3], stores[2], stores[3], replies[2], moments[2], epoch, uids);
    lemma_page_begins(steps[3], stores[2], stores[3], input, epoch, snapshot, moments[2]);
    let end = page_size(input.limit) as int;
    lemma_page_run(steps, stores, replies, moments, input, epoch, snapshot, end, 3);
}

/// The next page of a search that is taken up from its cursor.
///
/// A run of a request with a cursor, in which the session is opened, the
/// mailbox is selected in the epoch `epoch`, the cursor stands for the live
/// entry `entry` of the same account, mailbox and epoch, and every later
/// reply answers a fetch, names no search command and ends after one fetch
/// for each match of the next page: the matches that the entry holds from
/// its offset on, a full page of them or what is left, in their order. Its
/// report gives the number of matches that the entry holds as the total,
/// and its summaries are of matches of that page alone, in their order,
/// whatever single fetches fail.
pub proof fn lemma_next_page(
    config: ServerConfig,
    input: SearchMessagesInput,
    steps: Seq<Step<SearchState, SearchResultData>>,
    stores: Seq<StoreFacts>,
    replies: Seq<Reply>,
    moments: Seq<Moment>,
    epoch: u32,
    entry: CursorEntry,
)
    requires
        search_run(steps, stores, replies, moments),
        search_begun(steps[0], config, input),
        steps.last() is Finish,
        input.cursor is Some,
        replies.len() >= 2,
        replies[0] matches Reply::Done(Ok(_)),
        replies[1] == Reply::Epoch(Ok(epoch)),
        forall|k: int| 2 <= k < replies.len() ==> (#[trigger] replies[k]) is HeadersAndFlags,
        lookup(
            after_get(stores[0].slots, later(stores[0].clock, moments[1].now)),
            input.cursor->Some_0@,
        ) == Some(entry),
        entry.account_id@ == input.account_id@,
        entry.mailbox@ == input.mailbox@,
        entry.uidvalidity == epoch,
        entry.offset <= entry.uids_desc@.len(),
    ensures
        ({
            let attempted = page_length(input.limit, entry.uids_desc@.len() - entry.offset);
            &&& replies.len() == 2 + attempted
            &&& forall|j: int|
                2 <= j < replies.len() ==> asks_for(
                    #[trigger] steps[j],
                    entry.uids_desc@[entry.offset + j - 2],
                )
            &&& forall|j: int| 0 <= j < steps.len() ==> !names_search(#[trigger] steps[j])
            &&& steps.last() matches Step::Finish(Ok(r)) && r.total == entry.uids_desc@.len()
                && r.attempted == attempted && r.returned + r.failed == r.attempted && in_order(
                r.messages@,
                entry.uids_desc@,
                entry.offset as int,
                entry.offset + attempted,
            )
        }),
{
    let n = replies.len() as int;
    assert(follows(steps[0], steps[1], stores[0], stores[1], replies[0], moments[0]));
    assert(follows(steps[1], steps[2], stores[1], stores[2], replies[1], moments[1]));
    lemma_follows_a_command(steps[0], steps[1], stores[0], stores[1], replies[0], moments[0]);
    lemma_connected(steps[0], steps[1], stores[0], stores[1], replies[0], moments[0]);
    let snapshot = lemma_selected_again(
        steps[1],
        steps[2],
        stores[1],
        stores[2],
        replies[1],
        moments[1],
        epoch,
        entry,
    );
    let mid = store_at(
        stores[1],
        after_get(stores[1].slots, later(stores[1].clock, moments[1].now)),
        moments[1].now,
    );
    lemma_page_begins(steps[2], mid, stores[2], input, epoch, snapshot, moments[1]);
    let attempted = page_length(input.limit, entry.uids_desc@.len() - entry.offset);
    let end = entry.offset + attempted;
    if entry.uids_desc@.len() - entry.offset == 0 {
        if n > 2 {
            assert(follows(steps[2], steps[3], stores[2], stores[3], replies[2], moments[2]));
            lemma_follows_a_command(
                steps[2],
                steps[3],
                stores[2],
                stores[3],
                replies[2],
                moments[2],
            );
        }
        assert(steps.last() == steps[2]);
    } else {
        lemma_page_run(steps, stores, replies, moments, input, epoch, snapshot, end, 2);
    }
    assert forall|j: int| 0 <= j < steps.len() implies !names_search(#[trigger] steps[j]) by {
        if 2 <= j < n {
            assert(asks_for(steps[j], snapshot.uids_desc@[snapshot.offset + j - 2]));
        }
    }
}

/// Two calls: the first page of a search and the page after it.
///
/// Let a first call be as `lemma_first_page_of_many` asks, on a cursor
/// store that is valid and keeps at least one entry. Let a second call name
/// the cursor that the first one reported, for the same account and the
/// same mailbox, begin on the store that the first one left, find the
/// mailbox in the same epoch, and read the clock before the cursor expires.
/// Then the second call names no search command. It fetches the matches
/// that follow the first page, a full page of them or what is left, in
/// their order, none of the first page again and none passed over. Its
/// report gives the total of the first call, and its summaries are of
/// matches of that page alone, in their order, whatever single fetches
/// fail.
pub proof fn lemma_second_page(
    config: ServerConfig,
    input: SearchMessagesInput,
    steps: Seq<Step<SearchState, SearchResultData>>,
    stores: Seq<StoreFacts>,
    replies: Seq<Reply>,
    moments: Seq<Moment>,
    epoch: u32,
    uids: Vec<u32>,
    next_input: SearchMessagesInput,
    next_steps: Seq<Step<SearchState, SearchResultData>>,
    next_stores: Seq<StoreFacts>,
    next_replies: Seq<Reply>,
    next_moments: Seq<Moment>,
)
    requires
        search_run(steps, stores, replies, moments),
        search_begun(steps[0], config, input),
        steps.last() is Finish,
        input.cursor is None,
        replies.len() >= 3,
        replies[0] matches Reply::Done(Ok(_)),
        replies[1] == Reply::Epoch(Ok(epoch)),
        replies[2] == Reply::Uids(Ok(uids)),
        forall|k: int| 3 <= k < replies.len() ==> (#[trigger] replies[k]) is HeadersAndFlags,
        page_size(input.limit) < uids@.len() <= MAX_CURSOR_UIDS_STORED,
        expire_by(stores[0].slots, deadline(stores[0].clock, stores[0].ttl_seconds)),
        stores[0].max_entries > 0,
        search_run(next_steps, next_stores, next_replies, next_moments),
        search_begun(next_steps[0], config, next_input),
        next_steps.last() is Finish,
        next_stores[0] == stores.last(),
        next_input.cursor is Some,
        next_input.cursor->Some_0@ == moments.last().token@,
        next_input.account_id@ == input.account_id@,
        next_input.mailbox@ == input.mailbox@,
        next_replies.len() >= 2,
        next_replies[0] matches Reply::Done(Ok(_)),
        next_replies[1] == Reply::Epoch(Ok(epoch)),
        forall|k: int|
            2 <= k < next_replies.len() ==> (#[trigger] next_replies[k]) is HeadersAndFlags,
        later(next_stores[0].clock, next_moments[1].now) < deadline(
            next_stores[0].clock,
            stores[0].ttl_seconds,
        ),
    ensures
        ({
            let first = page_size(input.limit) as int;
            let attempted = page_length(next_input.limit, uids@.len() - first);
            &&& next_replies.len() == 2 + attempted
            &&& forall|j: int|
                2 <= j < next_replies.len() ==> asks_for(
                    #[trigger] next_steps[j],
                    uids@[first + j - 2],
                )
            &&& forall|j: int| 0 <= j < next_steps.len() ==> !names_search(#[trigger] next_steps[j])
            &&& steps.last() matches Step::Finish(Ok(r)) && r.total == uids@.len()
            &&& next_steps.last() matches Step::Finish(Ok(r)) && r.total == uids@.len()
                && r.attempted == attempted && r.returned + r.failed == r.attempted && in_order(
                r.messages@,
                uids@,
                first,
                first + attempted,
            )
        }),
{
    lemma_first_page_of_many(config, input, steps, stores, replies, moments, epoch, uids);
    let before = stores[0];
    let moment = moments.last();
    let snapshot = first_snapshot(input, uids);
    let end = page_size(input.limit);
    let t = later(before.clock, moment.now);
    let expiry = deadline(t, before.ttl_seconds);
    let slot = CursorSlot {
        token: moment.token,
        entry: captured(input, epoch, snapshot, end, expiry),
    };
    let left = cursors_after_page(before, input, epoch, snapshot, end, moment);
    assert(left.slots == after_create(before.slots, slot, t, before.max_entries as nat));
    assert(left.clock == t);
    let t2 = later(t, next_moments[1].now);
    lemma_deadline_monotone(before.clock, t, before.ttl_seconds);
    lemma_create_then_get(before.slots, slot, t, t2, before.ttl_seconds, before.max_entries as nat);
    lemma_next_page(
        config,
        next_input,
        next_steps,
        next_stores,
        next_replies,
        next_moments,
        epoch,
        slot.entry,
    );
}

} // verus!
