//! The paginated message source: a cursor that walks a channel's history by
//! repeated bounded page fetches.
//!
//! The remote service hands out pages newest message first. The source asks
//! for one page at a time, buffers it, yields its messages one by one and
//! then asks for the page before the oldest message seen so far. The caller
//! performs the fetches: it asks the source which page is wanted, fetches it
//! and hands it back.

use vstd::prelude::*;
use crate::message::Message;

verus! {

/// The number of messages asked for in one page fetch.
pub const PAGE_SIZE: usize = 100;

/// The bounds of the history that is visited: messages with an identifier
/// below `before` and above `after`, each bound only where it is set.
#[derive(Copy, Clone, Debug)]
pub struct MessagesRange {
    pub before: Option<u64>,
    pub after: Option<u64>,
}

/// Whether `id` lies below `before` and above `after`, each where set.
pub open spec fn in_bounds(id: u64, before: Option<u64>, after: Option<u64>) -> bool {
    &&& before matches Some(b) ==> id < b
    &&& after matches Some(a) ==> id > a
}

impl MessagesRange {
    /// Whether the range visits the message with identifier `id`.
    pub open spec fn contains(&self, id: u64) -> bool {
        in_bounds(id, self.before, self.after)
    }

    /// The range that visits the whole history.
    pub fn unbounded() -> (range: Self)
        ensures
            range.before is None,
            range.after is None,
    {
        MessagesRange { before: None, after: None }
    }

    /// Whether the upper bound is still open, so that the newest message of
    /// the channel has to be looked up before a long walk starts.
    pub fn needs_snapshot(&self) -> (open: bool)
        ensures
            open == (self.before is None),
    {
        self.before.is_none()
    }

    /// The range with its upper bound pinned: a bound that is set stays, an
    /// open one becomes `newest`, the identifier of the newest message of
    /// the channel at this moment (absent for an empty channel). Messages
    /// posted later are then never visited.
    pub fn snapshot_for_channel(&self, newest: Option<u64>) -> (pinned: MessagesRange)
        ensures
            pinned.after == self.after,
            pinned.before == if self.before is Some { self.before } else { newest },
    {
        if self.before.is_some() {
            *self
        } else {
            MessagesRange { before: newest, after: self.after }
        }
    }
}

/// One page fetch: at most `limit` messages, the newest ones among those
/// with an identifier below `before` and above `after`.
#[derive(Copy, Clone, Debug)]
pub struct PageRequest {
    pub before: Option<u64>,
    pub after: Option<u64>,
    pub limit: usize,
}

/// The cursor that a page leaves behind: the identifier of its oldest
/// message, which is its last one; nothing for an empty page.
pub open spec fn next_cursor(page: Seq<Message>) -> Option<u64> {
    if page.len() == 0 {
        None
    } else {
        Some(page.last().id)
    }
}

/// The state of a walk over a channel's history.
#[derive(Debug)]
pub struct SmartMessagesIter {
    /// The messages of the last page that were not yet yielded, oldest
    /// first: the next to yield is the last.
    pub buffer: Vec<Message>,
    /// The upper bound of the next page.
    pub before: Option<u64>,
    /// Whether a page was fetched, or a fetch failed, since the walk began.
    pub tried_fetch: bool,
    /// Whether the history has no further page: a short page was seen, or a
    /// fetch failed.
    pub exhausted: bool,
    pub range: MessagesRange,
}

impl SmartMessagesIter {
    /// Whether the next step of the walk is a page fetch.
    pub open spec fn wants_page(&self) -> bool {
        !self.tried_fetch || (self.buffer@.len() == 0 && !self.exhausted && self.before is Some)
    }

    /// Whether the walk is over: nothing is buffered and no page is wanted.
    pub open spec fn finished(&self) -> bool {
        self.buffer@.len() == 0 && !self.wants_page()
    }

    /// A walk over `range` that has not fetched anything yet.
    pub fn new(range: MessagesRange) -> (source: Self)
        ensures
            source.buffer@.len() == 0,
            source.before == range.before,
            !source.tried_fetch,
            !source.exhausted,
            source.range == range,
            source.wants_page(),
    {
        SmartMessagesIter {
            buffer: Vec::new(),
            before: range.before,
            tried_fetch: false,
            exhausted: false,
            range,
        }
    }

    /// Whether the caller has to fetch a page before the next message can
    /// be taken: always at the start, later when the buffer has run empty
    /// and the history may hold more.
    pub fn needs_fetch(&self) -> (wanted: bool)
        ensures
            wanted == self.wants_page(),
    {
        !self.tried_fetch || (self.buffer.is_empty() && !self.exhausted && self.before.is_some())
    }

    /// The page to fetch next: below the oldest message seen so far, above
    /// the lower bound of the range, of the fixed page size.
    pub fn request(&self) -> (wanted: PageRequest)
        ensures
            wanted.before == self.before,
            wanted.after == self.range.after,
            wanted.limit == PAGE_SIZE,
    {
        PageRequest { before: self.before, after: self.range.after, limit: PAGE_SIZE }
    }

    /// Takes a fetched page, newest message first, as the remote service
    /// hands it out. The whole page is buffered in reverse, so that its
    /// newest message is yielded first; what was still buffered is dropped.
    /// The cursor moves to the oldest message of the page. A page shorter
    /// than the page size ends the history.
    pub fn refresh(&mut self, page: Vec<Message>)
        ensures
            final(self).buffer@ == page@.reverse(),
            final(self).before == next_cursor(page@),
            final(self).tried_fetch,
            final(self).exhausted == (old(self).exhausted || page@.len() < PAGE_SIZE),
            final(self).range == old(self).range,
    {
        let short = page.len() < PAGE_SIZE;
        let oldest = match page.last() {
            Some(message) => Some(message.id),
            None => None,
        };
        self.buffer = reversed(page);
        self.before = oldest;
        self.tried_fetch = true;
        self.exhausted = self.exhausted || short;
    }

    /// Records that a page fetch failed. The caller surfaces the error to
    /// the consumer; the walk asks for no further page. Nothing that was
    /// buffered is lost.
    pub fn fail(&mut self)
        ensures
            final(self).buffer@ == old(self).buffer@,
            final(self).before == old(self).before,
            final(self).tried_fetch,
            final(self).exhausted,
            final(self).range == old(self).range,
            !final(self).wants_page(),
    {
        self.tried_fetch = true;
        self.exhausted = true;
    }

    /// Takes the next message from the tail of the buffer, or nothing where
    /// the buffer is empty.
    pub fn next(&mut self) -> (yielded: Option<Message>)
        ensures
            old(self).buffer@.len() == 0 ==> yielded is None && final(self).buffer@.len() == 0,
            old(self).buffer@.len() > 0 ==> yielded == Some(old(self).buffer@.last())
                && final(self).buffer@ == old(self).buffer@.drop_last(),
            final(self).before == old(self).before,
            final(self).tried_fetch == old(self).tried_fetch,
            final(self).exhausted == old(self).exhausted,
            final(self).range == old(self).range,
    {
        self.buffer.pop()
    }

    /// Whether the walk is over.
    pub fn is_finished(&self) -> (over: bool)
        ensures
            over == self.finished(),
    {
        self.buffer.is_empty() && !self.needs_fetch()
    }
}

/// The messages of `page` in the opposite order.
pub fn reversed(page: Vec<Message>) -> (turned: Vec<Message>)
    ensures
        turned@ == page@.reverse(),
{
    let mut rest = page;
    let mut turned: Vec<Message> = Vec::new();
    let ghost whole = rest@;
    while rest.len() > 0
        invariant
            rest@.len() <= whole.len(),
            rest@ == whole.subrange(0, rest@.len() as int),
            turned@.len() == whole.len() - rest@.len(),
            forall|i: int|
                0 <= i < turned@.len() ==> turned@[i] == #[trigger] whole[whole.len() - 1 - i],
        decreases rest@.len(),
    {
        let message = rest.pop();
        match message {
            Some(message) => {
                turned.push(message);
            },
            None => {},
        }
    }
    assert(turned@ =~= whole.reverse());
    turned
}

} // verus!
