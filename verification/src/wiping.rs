//! The retention wipe engine: which deletion call removes which message.
//!
//! The platform deletes messages in bulk only where every message of the
//! batch is younger than its retention window, and only in batches of
//! bounded size. The engine reads the messages in the order in which the
//! paginated source yields them, buffers the leading run of young
//! messages, hands it out in batches, and hands every later message out
//! for a deletion call of its own.

use vstd::prelude::*;
use vstd::string::StringExecFns;
use crate::message::Message;
use crate::text::{decimal_digits, push_decimal};

verus! {

/// The largest number of messages that one bulk deletion may name.
pub const BULK_LIMIT: usize = 100;

/// The number of seconds in a day.
pub const DAY_SECONDS: i64 = 86_400;

/// How a message is deleted.
#[derive(Debug, Copy, Clone, PartialEq, Eq, Structural)]
pub enum DeletionKind {
    /// Together with others, in one batched call.
    Bulk,
    /// In a call of its own.
    Individual,
}

/// The kind of deletion that the age of a message allows: bulk for a
/// message strictly newer than the cutoff, individual for one at the
/// cutoff or older.
pub open spec fn kind_of(timestamp: i64, cutoff: i64) -> DeletionKind {
    if timestamp > cutoff {
        DeletionKind::Bulk
    } else {
        DeletionKind::Individual
    }
}

/// The kind of deletion that the age of a message allows.
pub fn classify(timestamp: i64, cutoff: i64) -> (kind: DeletionKind)
    ensures
        kind == kind_of(timestamp, cutoff),
{
    if timestamp > cutoff {
        DeletionKind::Bulk
    } else {
        DeletionKind::Individual
    }
}

/// The retention cutoff: the moment `window_days` days before `now`, in
/// seconds since the Unix epoch; nothing where that moment cannot be
/// written.
pub fn retention_cutoff(now: i64, window_days: u32) -> (cutoff: Option<i64>)
    ensures
        match cutoff {
            Some(cutoff) => cutoff == now - window_days * DAY_SECONDS,
            None => now - window_days * DAY_SECONDS < i64::MIN,
        },
{
    let window: i64 = (window_days as i64) * DAY_SECONDS;
    now.checked_sub(window)
}

/// The number of messages at the head of the sequence that are strictly
/// newer than the cutoff.
pub open spec fn leading_recent(messages: Seq<Message>, cutoff: i64) -> nat
    decreases messages.len(),
{
    if messages.len() > 0 && messages[0].timestamp > cutoff {
        1 + leading_recent(messages.drop_first(), cutoff)
    } else {
        0
    }
}

/// The identifiers of the messages, in order.
pub open spec fn ids_of(messages: Seq<Message>) -> Seq<u64> {
    messages.map_values(|m: Message| m.id)
}

/// The sequence cut into batches of `size`, the last one shorter where
/// the length asks for it.
pub open spec fn chunks_of(ids: Seq<u64>, size: nat) -> Seq<Seq<u64>>
    decreases ids.len(),
    when size > 0
{
    if ids.len() == 0 {
        Seq::empty()
    } else if ids.len() <= size {
        seq![ids]
    } else {
        seq![ids.take(size as int)] + chunks_of(ids.skip(size as int), size)
    }
}

/// The batches one after the other.
pub open spec fn joined(batches: Seq<Seq<u64>>) -> Seq<u64>
    decreases batches.len(),
{
    if batches.len() == 0 {
        Seq::empty()
    } else {
        batches[0] + joined(batches.drop_first())
    }
}

/// The batches of an executable list of batches.
pub open spec fn batches_view(batches: Seq<Vec<u64>>) -> Seq<Seq<u64>> {
    batches.map_values(|batch: Vec<u64>| batch@)
}

/// The bulk deletions of a wipe: the leading run of recent messages, in
/// batches of at most the bulk limit.
pub open spec fn bulk_part(messages: Seq<Message>, cutoff: i64) -> Seq<Seq<u64>> {
    chunks_of(ids_of(messages).take(leading_recent(messages, cutoff) as int), BULK_LIMIT as nat)
}

/// The individual deletions of a wipe: every message behind the leading
/// run of recent ones.
pub open spec fn individual_part(messages: Seq<Message>, cutoff: i64) -> Seq<u64> {
    ids_of(messages).skip(leading_recent(messages, cutoff) as int)
}

/// A copy of the identifiers from `start` up to `end`.
fn copy_range(ids: &Vec<u64>, start: usize, end: usize) -> (batch: Vec<u64>)
    requires
        start <= end <= ids@.len(),
    ensures
        batch@ == ids@.subrange(start as int, end as int),
{
    let mut batch: Vec<u64> = Vec::new();
    let mut i: usize = start;
    while i < end
        invariant
            start <= i <= end <= ids@.len(),
            batch@ == ids@.subrange(start as int, i as int),
        decreases end - i,
    {
        batch.push(ids[i]);
        assert(batch@ =~= ids@.subrange(start as int, i + 1));
        i = i + 1;
    }
    batch
}

/// Cuts the identifiers into batches of `size`.
pub fn chunks(ids: &Vec<u64>, size: usize) -> (batches: Vec<Vec<u64>>)
    requires
        size > 0,
    ensures
        batches_view(batches@) == chunks_of(ids@, size as nat),
{
    let mut batches: Vec<Vec<u64>> = Vec::new();
    let mut start: usize = 0;
    let length = ids.len();
    assert(ids@.skip(0) =~= ids@);
    assert(batches_view(batches@) =~= Seq::<Seq<u64>>::empty());
    while start < length
        invariant
            size > 0,
            length == ids@.len(),
            start <= length,
            batches_view(batches@) + chunks_of(ids@.skip(start as int), size as nat) == chunks_of(
                ids@,
                size as nat,
            ),
        decreases length - start,
    {
        let end: usize = if length - start <= size {
            length
        } else {
            start + size
        };
        let batch = copy_range(ids, start, end);
        proof {
            let rest = ids@.skip(start as int);
            let built = batches_view(batches@);
            if length - start <= size {
                assert(batch@ =~= rest);
                assert(ids@.skip(end as int).len() == 0);
                assert(chunks_of(ids@.skip(end as int), size as nat) =~= Seq::<Seq<u64>>::empty());
            } else {
                assert(batch@ =~= rest.take(size as int));
                assert(rest.skip(size as int) =~= ids@.skip(end as int));
            }
            assert(batches_view(batches@.push(batch)) =~= built.push(batch@));
            assert(built.push(batch@) + chunks_of(ids@.skip(end as int), size as nat) =~= built
                + chunks_of(rest, size as nat));
        }
        batches.push(batch);
        start = end;
    }
    assert(batches_view(batches@) + chunks_of(ids@.skip(start as int), size as nat)
        =~= batches_view(batches@));
    batches
}

/// The engine's state: whether it still collects the leading run of
/// recent messages, and the run collected so far.
#[derive(Debug)]
pub struct WipeEngine {
    pub cutoff: i64,
    pub collecting: bool,
    pub recent: Vec<u64>,
}

/// What the engine asks for after it was offered a message.
#[derive(Debug)]
pub enum WipeStep {
    /// Nothing yet: the message was buffered for a bulk deletion.
    Buffered,
    /// The first message at or beyond the cutoff was met: delete the
    /// buffered messages in these batches, in order, then this message in
    /// a call of its own.
    Flush { batches: Vec<Vec<u64>>, single: u64 },
    /// Delete this message in a call of its own.
    Single(u64),
}

/// The deletion calls of a whole wipe: first the batches, in order, then
/// the single deletions, in order.
#[derive(Debug)]
pub struct WipePlan {
    pub batches: Vec<Vec<u64>>,
    pub singles: Vec<u64>,
}

impl WipeEngine {
    /// `step` and `after` are what offering `message` to `self` gives.
    pub open spec fn offered(&self, message: Message, step: WipeStep, after: WipeEngine) -> bool {
        &&& after.cutoff == self.cutoff
        &&& if self.collecting && kind_of(message.timestamp, self.cutoff) == DeletionKind::Bulk {
            &&& step is Buffered
            &&& after.collecting
            &&& after.recent@ == self.recent@.push(message.id)
        } else if self.collecting {
            &&& step matches WipeStep::Flush { batches, single }
            &&& batches_view(batches@) == chunks_of(self.recent@, BULK_LIMIT as nat)
            &&& single == message.id
            &&& !after.collecting
            &&& after.recent@.len() == 0
        } else {
            &&& step matches WipeStep::Single(single)
            &&& single == message.id
            &&& !after.collecting
            &&& after.recent@ == self.recent@
        }
    }

    /// An engine that has seen no message.
    pub fn new(cutoff: i64) -> (engine: Self)
        ensures
            engine.cutoff == cutoff,
            engine.collecting,
            engine.recent@.len() == 0,
    {
        WipeEngine { cutoff, collecting: true, recent: Vec::new() }
    }

    /// Takes the next message of the sequence and says which deletion
    /// calls are due now.
    pub fn offer(&mut self, message: &Message) -> (step: WipeStep)
        ensures
            old(self).offered(*message, step, *final(self)),
    {
        if !self.collecting {
            return WipeStep::Single(message.id);
        }
        match classify(message.timestamp, self.cutoff) {
            DeletionKind::Bulk => {
                self.recent.push(message.id);
                WipeStep::Buffered
            },
            DeletionKind::Individual => {
                let batches = chunks(&self.recent, BULK_LIMIT);
                self.collecting = false;
                self.recent = Vec::new();
                WipeStep::Flush { batches, single: message.id }
            },
        }
    }

    /// Ends the sequence: hands out the batches of what is still
    /// buffered, which is nothing once a message at or beyond the cutoff
    /// was met.
    pub fn finish(&mut self) -> (batches: Vec<Vec<u64>>)
        ensures
            final(self).cutoff == old(self).cutoff,
            !final(self).collecting,
            final(self).recent@.len() == 0,
            batches_view(batches@) == if old(self).collecting {
                chunks_of(old(self).recent@, BULK_LIMIT as nat)
            } else {
                Seq::<Seq<u64>>::empty()
            },
    {
        let batches = if self.collecting {
            chunks(&self.recent, BULK_LIMIT)
        } else {
            Vec::new()
        };
        assert(!self.collecting ==> batches_view(batches@) =~= Seq::<Seq<u64>>::empty());
        self.collecting = false;
        self.recent = Vec::new();
        batches
    }
}

/// The leading run of recent messages ends at `k` where the first `k`
/// messages are recent and the one behind them, if any, is not.
pub proof fn lemma_leading_recent(messages: Seq<Message>, cutoff: i64, k: int)
    requires
        0 <= k <= messages.len(),
        forall|j: int| 0 <= j < k ==> (#[trigger] messages[j]).timestamp > cutoff,
        k < messages.len() ==> messages[k].timestamp <= cutoff,
    ensures
        leading_recent(messages, cutoff) == k,
    decreases k,
{
    if k > 0 {
        let rest = messages.drop_first();
        assert(messages[0].timestamp > cutoff);
        assert forall|j: int| 0 <= j < k - 1 implies (#[trigger] rest[j]).timestamp > cutoff by {
            assert(rest[j] == messages[j + 1]);
        }
        if k < messages.len() {
            assert(rest[k - 1] == messages[k]);
        }
        lemma_leading_recent(rest, cutoff, k - 1);
    }
}

/// The deletion calls for a whole sequence of messages, read in order.
pub fn wipe_plan(messages: &Vec<Message>, cutoff: i64) -> (plan: WipePlan)
    ensures
        batches_view(plan.batches@) == bulk_part(messages@, cutoff),
        plan.singles@ == individual_part(messages@, cutoff),
{
    let mut engine = WipeEngine::new(cutoff);
    let mut batches: Vec<Vec<u64>> = Vec::new();
    let mut singles: Vec<u64> = Vec::new();
    let mut i: usize = 0;
    let ghost ids = ids_of(messages@);
    assert(engine.recent@ =~= ids.take(0));
    while i < messages.len()
        invariant
            i <= messages@.len(),
            ids == ids_of(messages@),
            engine.cutoff == cutoff,
            engine.collecting ==> {
                &&& forall|j: int| 0 <= j < i ==> (#[trigger] messages@[j]).timestamp > cutoff
                &&& engine.recent@ == ids.take(i as int)
                &&& batches@.len() == 0
                &&& singles@.len() == 0
            },
            !engine.collecting ==> {
                &&& leading_recent(messages@, cutoff) < i
                &&& batches_view(batches@) == bulk_part(messages@, cutoff)
                &&& singles@ == ids.subrange(leading_recent(messages@, cutoff) as int, i as int)
            },
        decreases messages@.len() - i,
    {
        let step = engine.offer(&messages[i]);
        match step {
            WipeStep::Buffered => {
                assert(engine.recent@ =~= ids.take(i + 1));
            },
            WipeStep::Flush { batches: flushed, single } => {
                proof {
                    lemma_leading_recent(messages@, cutoff, i as int);
                }
                batches = flushed;
                singles.push(single);
                assert(singles@ =~= ids.subrange(i as int, i + 1));
            },
            WipeStep::Single(single) => {
                let ghost k = leading_recent(messages@, cutoff) as int;
                singles.push(single);
                assert(singles@ =~= ids.subrange(k, i + 1));
            },
        }
        i = i + 1;
    }
    let collecting = engine.collecting;
    let rest = engine.finish();
    if collecting {
        proof {
            lemma_leading_recent(messages@, cutoff, i as int);
            assert(ids.take(i as int) =~= ids);
            assert(singles@ =~= ids.skip(i as int));
        }
        batches = rest;
    } else {
        proof {
            let k = leading_recent(messages@, cutoff) as int;
            assert(ids.subrange(k, i as int) =~= ids.skip(k));
        }
    }
    WipePlan { batches, singles }
}

/// The batches hold every identifier once, in order.
pub proof fn lemma_chunks_join(ids: Seq<u64>, size: nat)
    requires
        size > 0,
    ensures
        joined(chunks_of(ids, size)) == ids,
    decreases ids.len(),
{
    let batches = chunks_of(ids, size);
    if ids.len() == 0 {
        assert(joined(batches) =~= ids);
    } else if ids.len() <= size {
        assert(batches.drop_first() =~= Seq::<Seq<u64>>::empty());
        assert(joined(batches.drop_first()) =~= Seq::<u64>::empty());
        assert(joined(batches) =~= ids);
    } else {
        let rest = chunks_of(ids.skip(size as int), size);
        lemma_chunks_join(ids.skip(size as int), size);
        assert(batches.drop_first() =~= rest);
        assert(joined(batches) =~= ids.take(size as int) + ids.skip(size as int));
        assert(ids.take(size as int) + ids.skip(size as int) =~= ids);
    }
}

/// No batch is empty and none is longer than the batch size.
pub proof fn lemma_chunks_bounded(ids: Seq<u64>, size: nat, i: int)
    requires
        size > 0,
        0 <= i < chunks_of(ids, size).len(),
    ensures
        1 <= chunks_of(ids, size)[i].len() <= size,
    decreases ids.len(),
{
    if ids.len() > size && i > 0 {
        lemma_chunks_bounded(ids.skip(size as int), size, i - 1);
    }
}

/// The number of batches is the number of identifiers divided by the
/// batch size, rounded up.
pub proof fn lemma_chunks_count(ids: Seq<u64>, size: nat)
    requires
        size > 0,
    ensures
        chunks_of(ids, size).len() == (ids.len() + size - 1) / (size as int),
    decreases ids.len(),
{
    let n = ids.len();
    if n == 0 {
        assert((n + size - 1) / (size as int) == 0) by (nonlinear_arith)
            requires
                n == 0,
                size > 0,
        ;
    } else if n <= size {
        assert((n + size - 1) / (size as int) == 1) by (nonlinear_arith)
            requires
                0 < n <= size,
        ;
    } else {
        lemma_chunks_count(ids.skip(size as int), size);
        assert((n - size + size - 1) / (size as int) + 1 == (n + size - 1) / (size as int))
            by (nonlinear_arith)
            requires
                n > size,
                size > 0,
        ;
    }
}

/// Every message of the leading run is recent, and the run ends within
/// the sequence.
pub proof fn lemma_leading_run_is_recent(messages: Seq<Message>, cutoff: i64)
    ensures
        leading_recent(messages, cutoff) <= messages.len(),
        forall|j: int|
            0 <= j < leading_recent(messages, cutoff) ==> (#[trigger] messages[j]).timestamp
                > cutoff,
        leading_recent(messages, cutoff) < messages.len() ==> messages[leading_recent(
            messages,
            cutoff,
        ) as int].timestamp <= cutoff,
    decreases messages.len(),
{
    if messages.len() > 0 && messages[0].timestamp > cutoff {
        let rest = messages.drop_first();
        lemma_leading_run_is_recent(rest, cutoff);
        assert forall|j: int| 0 <= j < leading_recent(messages, cutoff) implies (
        #[trigger] messages[j]).timestamp > cutoff by {
            if j > 0 {
                assert(messages[j] == rest[j - 1]);
            }
        }
        if leading_recent(messages, cutoff) < messages.len() {
            assert(messages[leading_recent(messages, cutoff) as int] == rest[leading_recent(
                rest,
                cutoff,
            ) as int]);
        }
    }
}

/// A wipe targets every message exactly once: the batches, one after the
/// other, followed by the single deletions, are the messages in the order
/// in which they were read. Every batch holds at least one and at most
/// the bulk limit of messages.
pub proof fn lemma_wipe_targets_each_once(messages: Seq<Message>, cutoff: i64)
    ensures
        joined(bulk_part(messages, cutoff)) + individual_part(messages, cutoff) == ids_of(
            messages,
        ),
        joined(bulk_part(messages, cutoff)).len() + individual_part(messages, cutoff).len()
            == messages.len(),
        forall|i: int|
            0 <= i < bulk_part(messages, cutoff).len() ==> 1 <= (#[trigger] bulk_part(
                messages,
                cutoff,
            )[i]).len() <= BULK_LIMIT,
{
    let ids = ids_of(messages);
    let k = leading_recent(messages, cutoff) as int;
    lemma_leading_run_is_recent(messages, cutoff);
    lemma_chunks_join(ids.take(k), BULK_LIMIT as nat);
    assert(ids.take(k) + ids.skip(k) =~= ids);
    assert forall|i: int| 0 <= i < bulk_part(messages, cutoff).len() implies 1 <= (
    #[trigger] bulk_part(messages, cutoff)[i]).len() <= BULK_LIMIT by {
        lemma_chunks_bounded(ids.take(k), BULK_LIMIT as nat, i);
    }
}

/// Once a message at or beyond the cutoff was read, every later one is at
/// or beyond it too. This holds of a sequence read newest first.
pub open spec fn settled(messages: Seq<Message>, cutoff: i64) -> bool {
    forall|i: int, j: int|
        0 <= i < j < messages.len() && messages[i].timestamp <= cutoff ==> messages[j].timestamp
            <= cutoff
}

/// In a sequence read newest first, the messages deleted in bulk are
/// exactly those strictly newer than the cutoff, and the messages deleted
/// one by one are exactly those at the cutoff or older.
pub proof fn lemma_wipe_partitions_by_age(messages: Seq<Message>, cutoff: i64)
    requires
        settled(messages, cutoff),
    ensures
        leading_recent(messages, cutoff) <= messages.len(),
        forall|j: int|
            0 <= j < messages.len() ==> (kind_of((#[trigger] messages[j]).timestamp, cutoff)
                == DeletionKind::Bulk <==> j < leading_recent(messages, cutoff)),
{
    lemma_leading_run_is_recent(messages, cutoff);
    let k = leading_recent(messages, cutoff) as int;
    assert forall|j: int| 0 <= j < messages.len() implies (kind_of(
        (#[trigger] messages[j]).timestamp,
        cutoff,
    ) == DeletionKind::Bulk <==> j < k) by {
        if j > k {
            assert(messages[k].timestamp <= cutoff);
        }
    }
}

/// The progress line of the individual deletions: the number of messages
/// deleted so far; the total is not known before the sequence ends.
pub fn progress_text(deleted: u64) -> (text: String)
    ensures
        text@ == "Deleting messages: "@ + decimal_digits(deleted as nat) + "/unknown"@,
{
    let mut text = String::from_str("Deleting messages: ");
    push_decimal(&mut text, deleted);
    text.append("/unknown");
    text
}

} // verus!
