//! A model of the remote service's paginated read, and what a walk over it
//! visits.
//!
//! A channel's history is a sequence of messages with strictly ascending
//! identifiers, oldest first. The remote service answers a page request with
//! the newest messages within the request's bounds, newest first.

use vstd::prelude::*;
use crate::message::Message;
use crate::messages_iter::{
    in_bounds, next_cursor, MessagesRange, PageRequest, SmartMessagesIter, PAGE_SIZE,
};

verus! {

/// Identifiers grow strictly along the history.
pub open spec fn ascending(history: Seq<Message>) -> bool {
    forall|i: int, j: int| 0 <= i < j < history.len() ==> history[i].id < history[j].id
}

/// Identifiers fall strictly along the sequence.
pub open spec fn descending(messages: Seq<Message>) -> bool {
    forall|i: int, j: int| 0 <= i < j < messages.len() ==> messages[i].id > messages[j].id
}

/// The messages of the history within the bounds, oldest first.
pub open spec fn visible(history: Seq<Message>, before: Option<u64>, after: Option<u64>) -> Seq<
    Message,
> {
    history.filter(|m: Message| in_bounds(m.id, before, after))
}

/// What the remote service answers to a page request: the newest `limit`
/// messages within the bounds, or all of them where there are fewer, newest
/// first.
pub open spec fn page_of(history: Seq<Message>, request: PageRequest) -> Seq<Message> {
    let seen = visible(history, request.before, request.after);
    let taken = if seen.len() <= request.limit {
        seen.len() as int
    } else {
        request.limit as int
    };
    seen.subrange(seen.len() - taken, seen.len() as int).reverse()
}

/// A whole walk: the messages in the order in which they are yielded, and
/// the number of page fetches made. Each page is yielded in the order in
/// which the remote service hands it out; a full page is followed by the
/// page below its oldest message, a short page ends the walk.
pub open spec fn walk(
    history: Seq<Message>,
    before: Option<u64>,
    after: Option<u64>,
    limit: usize,
) -> (Seq<Message>, nat)
    decreases visible(history, before, after).len(),
    when ascending(history) && limit > 0
{
    let page = page_of(history, PageRequest { before, after, limit });
    if page.len() < limit {
        (page, 1)
    } else {
        proof {
            lemma_next_page_is_older(history, before, after, limit);
        }
        let rest = walk(history, next_cursor(page), after, limit);
        (page + rest.0, rest.1 + 1)
    }
}

/// Two predicates that agree on every element keep the same elements.
proof fn lemma_filter_agree(
    s: Seq<Message>,
    p: spec_fn(Message) -> bool,
    q: spec_fn(Message) -> bool,
)
    requires
        forall|i: int| 0 <= i < s.len() ==> p(#[trigger] s[i]) == q(s[i]),
    ensures
        s.filter(p) == s.filter(q),
    decreases s.len(),
{
    reveal(Seq::filter);
    if s.len() > 0 {
        lemma_filter_agree(s.drop_last(), p, q);
    }
}

/// Filtering an ascending history by `p` and by an identifier below that of
/// the `k`-th kept message keeps the first `k` of the messages that `p`
/// keeps.
proof fn lemma_cut(
    h: Seq<Message>,
    p: spec_fn(Message) -> bool,
    q: spec_fn(Message) -> bool,
    k: int,
)
    requires
        ascending(h),
        0 <= k < h.filter(p).len(),
        forall|m: Message| #[trigger] q(m) == (p(m) && m.id < h.filter(p)[k].id),
    ensures
        h.filter(q) == h.filter(p).subrange(0, k),
    decreases h.len(),
{
    reveal(Seq::filter);
    let v = h.filter(p);
    if h.len() > 0 {
        let rest = h.drop_last();
        let last = h.last();
        let kept = rest.filter(p);
        assert(ascending(rest));
        if p(last) && k == v.len() - 1 {
            assert(v[k] == last);
            assert forall|i: int| 0 <= i < rest.len() implies p(#[trigger] rest[i]) == q(
                rest[i],
            ) by {
                assert(rest[i] == h[i]);
                assert(h[i].id < h[h.len() - 1].id);
            }
            lemma_filter_agree(rest, p, q);
            assert(v.subrange(0, k) =~= kept);
        } else {
            assert(v[k] == kept[k]);
            assert(kept.contains(kept[k]));
            rest.lemma_filter_contains_rev(p, kept[k]);
            let j = choose|j: int| 0 <= j < rest.len() && rest[j] == kept[k];
            assert(h[j] == kept[k]);
            assert(h[j].id < h[h.len() - 1].id);
            assert(!q(last));
            lemma_cut(rest, p, q, k);
            assert(v.subrange(0, k) =~= kept.subrange(0, k));
        }
    }
}

/// What an ascending history shows keeps ascending.
pub proof fn lemma_visible_ascending(
    history: Seq<Message>,
    before: Option<u64>,
    after: Option<u64>,
)
    requires
        ascending(history),
    ensures
        ascending(visible(history, before, after)),
    decreases history.len(),
{
    reveal(Seq::filter);
    let p = |m: Message| in_bounds(m.id, before, after);
    if history.len() > 0 {
        let rest = history.drop_last();
        let kept = rest.filter(p);
        assert(ascending(rest));
        lemma_visible_ascending(rest, before, after);
        assert forall|i: int| 0 <= i < kept.len() implies (#[trigger] kept[i]).id
            < history.last().id by {
            assert(kept.contains(kept[i]));
            rest.lemma_filter_contains_rev(p, kept[i]);
            let j = choose|j: int| 0 <= j < rest.len() && rest[j] == kept[i];
            assert(history[j] == kept[i]);
            assert(history[j].id < history[history.len() - 1].id);
        }
    }
}

/// Below the oldest message of a full page the history shows exactly what
/// it showed before, without that page.
pub proof fn lemma_next_page_is_older(
    history: Seq<Message>,
    before: Option<u64>,
    after: Option<u64>,
    limit: usize,
)
    requires
        ascending(history),
        limit > 0,
        page_of(history, PageRequest { before, after, limit }).len() >= limit,
    ensures
        ({
            let seen = visible(history, before, after);
            let page = page_of(history, PageRequest { before, after, limit });
            &&& seen.len() >= limit
            &&& page.len() == limit
            &&& next_cursor(page) == Some(seen[seen.len() - limit].id)
            &&& visible(history, next_cursor(page), after) == seen.subrange(0, seen.len() - limit)
        }),
{
    let p = |m: Message| in_bounds(m.id, before, after);
    let seen = history.filter(p);
    let page = page_of(history, PageRequest { before, after, limit });
    let k = seen.len() - limit;
    assert(page.last() == seen[k]);
    let q = |m: Message| in_bounds(m.id, Some(seen[k].id), after);
    history.lemma_filter_pred(p, k);
    assert forall|m: Message| #[trigger] q(m) == (p(m) && m.id < history.filter(p)[k].id) by {}
    lemma_cut(history, p, q, k);
}

/// A walk over an ascending history yields exactly the messages that the
/// range shows, newest first and each once, and fetches one page more than
/// the number of full pages that they fill.
pub proof fn lemma_walk_visits_history(history: Seq<Message>, range: MessagesRange, limit: usize)
    requires
        ascending(history),
        limit > 0,
    ensures
        walk(history, range.before, range.after, limit).0 == visible(
            history,
            range.before,
            range.after,
        ).reverse(),
        walk(history, range.before, range.after, limit).1 == visible(
            history,
            range.before,
            range.after,
        ).len() / (limit as nat) + 1,
    decreases visible(history, range.before, range.after).len(),
{
    let seen = visible(history, range.before, range.after);
    let page = page_of(
        history,
        PageRequest { before: range.before, after: range.after, limit },
    );
    if page.len() < limit {
        assert(page =~= seen.reverse());
        assert(seen.len() / (limit as nat) == 0) by (nonlinear_arith)
            requires
                seen.len() < limit,
        ;
    } else {
        lemma_next_page_is_older(history, range.before, range.after, limit);
        let below = MessagesRange { before: next_cursor(page), after: range.after };
        lemma_walk_visits_history(history, below, limit);
        let older = seen.subrange(0, seen.len() - limit);
        assert(page + older.reverse() =~= seen.reverse());
        assert((seen.len() - limit) / (limit as int) + 1 == seen.len() / (limit as nat))
            by (nonlinear_arith)
            requires
                seen.len() >= limit,
                limit > 0,
        ;
    }
}

/// The messages that a walk yields have strictly falling identifiers, so
/// none is dropped, repeated or out of place.
pub proof fn lemma_walk_strictly_descending(
    history: Seq<Message>,
    range: MessagesRange,
    limit: usize,
)
    requires
        ascending(history),
        limit > 0,
    ensures
        descending(walk(history, range.before, range.after, limit).0),
        walk(history, range.before, range.after, limit).0.len() == visible(
            history,
            range.before,
            range.after,
        ).len(),
{
    lemma_walk_visits_history(history, range, limit);
    lemma_visible_ascending(history, range.before, range.after);
}

/// Where the messages do not fill whole pages, the walk fetches as many
/// pages as it takes to hold them: their number divided by the page size,
/// rounded up.
pub proof fn lemma_walk_fetch_count(history: Seq<Message>, range: MessagesRange, limit: usize)
    requires
        ascending(history),
        limit > 0,
        visible(history, range.before, range.after).len() % (limit as nat) != 0,
    ensures
        walk(history, range.before, range.after, limit).1 == (visible(
            history,
            range.before,
            range.after,
        ).len() + limit - 1) / (limit as int),
{
    lemma_walk_visits_history(history, range, limit);
    let n = visible(history, range.before, range.after).len();
    assert((n + limit - 1) / (limit as int) == n / (limit as nat) + 1) by (nonlinear_arith)
        requires
            limit > 0,
            n % (limit as nat) != 0,
    ;
}

/// What a walk that was driven to its end hands back.
#[derive(Debug)]
pub struct Walked<Failure> {
    /// The messages in the order in which they were yielded.
    pub messages: Vec<Message>,
    /// The number of page fetches that were answered.
    pub fetches: usize,
    /// The error of the fetch that ended the walk, if one did.
    pub failure: Option<Failure>,
    /// Whether the walk reached the end of the history.
    pub complete: bool,
}

/// `fetch` answers every page request as the remote service does for
/// `history`, and never fails.
pub open spec fn serves<Failure, Fetch: Fn(PageRequest) -> Result<Vec<Message>, Failure>>(
    fetch: Fetch,
    history: Seq<Message>,
) -> bool {
    forall|request: PageRequest, answer: Result<Vec<Message>, Failure>|
        #[trigger] call_ensures(fetch, (request,), answer) ==> (answer matches Ok(page) && page@
            == page_of(history, request))
}

/// The walk that lies ahead of a source whose buffer is empty: nothing
/// where it wants no further page.
pub open spec fn ahead(history: Seq<Message>, source: SmartMessagesIter) -> (Seq<Message>, nat) {
    if source.wants_page() {
        walk(history, source.before, source.range.after, PAGE_SIZE)
    } else {
        (Seq::empty(), 0)
    }
}

/// What was yielded and fetched so far, together with what lies ahead, is
/// the whole walk over `history`.
pub open spec fn on_track(
    history: Seq<Message>,
    range: MessagesRange,
    source: SmartMessagesIter,
    yielded: Seq<Message>,
    fetches: nat,
) -> bool {
    &&& yielded + ahead(history, source).0 == walk(
        history,
        range.before,
        range.after,
        PAGE_SIZE,
    ).0
    &&& fetches + ahead(history, source).1 == walk(
        history,
        range.before,
        range.after,
        PAGE_SIZE,
    ).1
}

/// Every walk takes at least one fetch.
pub proof fn lemma_walk_fetches(
    history: Seq<Message>,
    before: Option<u64>,
    after: Option<u64>,
    limit: usize,
)
    requires
        ascending(history),
        limit > 0,
    ensures
        walk(history, before, after, limit).1 >= 1,
{
}

impl SmartMessagesIter {
    /// Drives a walk over `range` to its end, fetching pages with `fetch`,
    /// and collects what it yields. The walk stops early where a fetch
    /// fails, with the error, and where `max_fetches` pages were fetched
    /// and more are wanted.
    ///
    /// Where `fetch` answers as the remote service does for a history
    /// with ascending identifiers, and `max_fetches` allows for the pages
    /// of that history, the result is the whole walk: every message that
    /// the range shows, each once and newest first, with one fetch for
    /// every full page and one for the page that ends the walk.
    pub fn stream<Failure, Fetch: Fn(PageRequest) -> Result<Vec<Message>, Failure>>(
        fetch: &Fetch,
        range: MessagesRange,
        max_fetches: usize,
    ) -> (walked: Walked<Failure>)
        requires
            forall|request: PageRequest| call_requires(*fetch, (request,)),
        ensures
            walked.fetches <= max_fetches,
            walked.failure matches Some(error) ==> exists|request: PageRequest|
                #[trigger] call_ensures(*fetch, (request,), Err::<Vec<Message>, Failure>(error)),
            walked.complete ==> walked.failure is None,
            forall|history: Seq<Message>|
                ascending(history) && #[trigger] serves(*fetch, history) && visible(
                    history,
                    range.before,
                    range.after,
                ).len() / (PAGE_SIZE as nat) < max_fetches ==> {
                    &&& walked.complete
                    &&& walked.messages@ == visible(history, range.before, range.after).reverse()
                    &&& walked.fetches == visible(history, range.before, range.after).len() / (
                    PAGE_SIZE as nat) + 1
                    &&& walked.messages@ == walk(
                        history,
                        range.before,
                        range.after,
                        PAGE_SIZE,
                    ).0
                },
    {
        let mut source = SmartMessagesIter::new(range);
        let mut messages: Vec<Message> = Vec::new();
        let mut fetches: usize = 0;
        let mut failure: Option<Failure> = None;
        let mut complete = false;
        assert forall|history: Seq<Message>|
            ascending(history) && #[trigger] serves(*fetch, history) implies on_track(
            history,
            range,
            source,
            messages@,
            fetches as nat,
        ) by {
            assert(messages@ + ahead(history, source).0 =~= ahead(history, source).0);
        }
        loop
            invariant_except_break
                !complete,
                failure is None,
            invariant
                forall|request: PageRequest| call_requires(*fetch, (request,)),
                fetches <= max_fetches,
                source.buffer@.len() == 0,
                source.range == range,
                !source.tried_fetch ==> !source.exhausted,
                forall|history: Seq<Message>|
                    ascending(history) && #[trigger] serves(*fetch, history) ==> on_track(
                        history,
                        range,
                        source,
                        messages@,
                        fetches as nat,
                    ),
            ensures
                fetches <= max_fetches,
                failure matches Some(error) ==> exists|request: PageRequest|
                    #[trigger] call_ensures(
                        *fetch,
                        (request,),
                        Err::<Vec<Message>, Failure>(error),
                    ),
                complete ==> failure is None,
                forall|history: Seq<Message>|
                    ascending(history) && #[trigger] serves(*fetch, history) && walk(
                        history,
                        range.before,
                        range.after,
                        PAGE_SIZE,
                    ).1 <= max_fetches ==> {
                        &&& complete
                        &&& messages@ == walk(history, range.before, range.after, PAGE_SIZE).0
                        &&& fetches == walk(history, range.before, range.after, PAGE_SIZE).1
                    },
            decreases max_fetches - fetches,
        {
            if !source.needs_fetch() {
                complete = true;
                assert forall|history: Seq<Message>|
                    ascending(history) && #[trigger] serves(*fetch, history) implies messages@
                    == walk(history, range.before, range.after, PAGE_SIZE).0 && fetches == walk(
                    history,
                    range.before,
                    range.after,
                    PAGE_SIZE,
                ).1 by {
                    assert(on_track(history, range, source, messages@, fetches as nat));
                    assert(messages@ + Seq::<Message>::empty() =~= messages@);
                }
                break;
            }
            if fetches == max_fetches {
                assert forall|history: Seq<Message>|
                    ascending(history) && #[trigger] serves(*fetch, history) implies walk(
                    history,
                    range.before,
                    range.after,
                    PAGE_SIZE,
                ).1 > max_fetches by {
                    assert(on_track(history, range, source, messages@, fetches as nat));
                    lemma_walk_fetches(history, source.before, range.after, PAGE_SIZE);
                }
                break;
            }
            let request = source.request();
            let answer = fetch(request);
            let page = match answer {
                Ok(page) => page,
                Err(error) => {
                    source.fail();
                    failure = Some(error);
                    assert(failure matches Some(given) && given == error);
                    assert(call_ensures(*fetch, (request,), Err::<Vec<Message>, Failure>(error)));
                    assert forall|history: Seq<Message>|
                        ascending(history) && #[trigger] serves(*fetch, history) implies false by {
                        assert(call_ensures(*fetch, (request,), answer));
                    }
                    break;
                },
            };
            let ghost before = source;
            let ghost yielded = messages@;
            let ghost served = page@;
            source.refresh(page);
            fetches = fetches + 1;
            while source.buffer.len() > 0
                invariant
                    source.range == range,
                    source.before == next_cursor(served),
                    source.tried_fetch,
                    source.exhausted == (before.exhausted || served.len() < PAGE_SIZE),
                    source.buffer@.len() <= served.len(),
                    messages@ + source.buffer@.reverse() == yielded + served,
                decreases source.buffer@.len(),
            {
                let ghost buffered = source.buffer@;
                let ghost collected = messages@;
                match source.next() {
                    Some(message) => {
                        messages.push(message);
                        assert(messages@ + source.buffer@.reverse() =~= collected
                            + buffered.reverse());
                    },
                    None => {},
                }
            }
            assert(messages@ =~= yielded + served) by {
                assert(source.buffer@.reverse() =~= Seq::<Message>::empty());
                assert(messages@ + Seq::<Message>::empty() =~= messages@);
            }
            assert forall|history: Seq<Message>|
                ascending(history) && #[trigger] serves(*fetch, history) implies on_track(
                history,
                range,
                source,
                messages@,
                fetches as nat,
            ) by {
                assert(on_track(history, range, before, yielded, (fetches - 1) as nat));
                assert(call_ensures(*fetch, (request,), answer));
                assert(served == page_of(history, request));
                let whole = walk(history, before.before, range.after, PAGE_SIZE);
                if served.len() < PAGE_SIZE {
                    assert(whole == (served, 1nat));
                    assert(ahead(history, source) == (Seq::<Message>::empty(), 0nat));
                    assert(messages@ + Seq::<Message>::empty() =~= yielded + served);
                } else {
                    lemma_next_page_is_older(history, before.before, range.after, PAGE_SIZE);
                    let rest = walk(history, next_cursor(served), range.after, PAGE_SIZE);
                    assert(whole == (served + rest.0, rest.1 + 1));
                    assert(source.wants_page());
                    assert(ahead(history, source) == rest);
                    assert(messages@ + rest.0 =~= yielded + (served + rest.0));
                }
            }
        }
        assert forall|history: Seq<Message>|
            ascending(history) && #[trigger] serves(*fetch, history) && visible(
                history,
                range.before,
                range.after,
            ).len() / (PAGE_SIZE as nat) < max_fetches implies walk(
            history,
            range.before,
            range.after,
            PAGE_SIZE,
        ) == (
            visible(history, range.before, range.after).reverse(),
            visible(history, range.before, range.after).len() / (PAGE_SIZE as nat) + 1,
        ) by {
            lemma_walk_visits_history(history, range, PAGE_SIZE);
        }
        Walked { messages, fetches, failure, complete }
    }
}

} // verus!
