//! The state of one archival run and the framing of its output stream.
//!
//! The output is one JSON array: it is opened when the run is created,
//! every record is appended with a separator before all but the first, and
//! it is closed exactly once at the end of the run. The library frames the
//! text; the caller writes each piece to the output file as it comes.

use vstd::prelude::*;
use vstd::string::StringExecFns;
use crate::cache::AssetCache;

verus! {

/// The text that opens the array.
pub open spec fn opening() -> Seq<char> {
    "[\n"@
}

/// The text between two records.
pub open spec fn separator() -> Seq<char> {
    ",\n"@
}

/// The text that closes the array.
pub open spec fn closing() -> Seq<char> {
    "\n]"@
}

/// What stands before the record at position `index`: nothing before the
/// first, the separator before every later one.
pub open spec fn delimiter(index: int) -> Seq<char> {
    if index == 0 {
        Seq::empty()
    } else {
        separator()
    }
}

/// The records, each with its delimiter, one after the other.
pub open spec fn body(records: Seq<Seq<char>>) -> Seq<char>
    decreases records.len(),
{
    if records.len() == 0 {
        Seq::empty()
    } else {
        body(records.drop_last()) + delimiter(records.len() - 1) + records.last()
    }
}

/// The whole output for the given records: one array.
pub open spec fn array_text(records: Seq<Seq<char>>) -> Seq<char> {
    opening() + body(records) + closing()
}

/// The range of timestamps after `timestamp` was observed.
pub open spec fn widened(range: Option<(i64, i64)>, timestamp: i64) -> (i64, i64) {
    match range {
        None => (timestamp, timestamp),
        Some((earliest, latest)) => (
            if timestamp < earliest {
                timestamp
            } else {
                earliest
            },
            if timestamp > latest {
                timestamp
            } else {
                latest
            },
        ),
    }
}

/// The state of one archival run.
pub struct ArchivalState {
    /// The earliest and the latest timestamp among the messages processed.
    pub time_range: Option<(i64, i64)>,
    /// The number of messages whose record was appended.
    pub processed_count: usize,
    /// The assets resolved so far.
    pub cache: AssetCache,
    /// Whether the output was closed.
    pub finalized: bool,
    /// The records appended so far.
    pub written: Ghost<Seq<Seq<char>>>,
}

impl ArchivalState {
    /// The cache is sound and every record was counted.
    pub open spec fn wf(&self) -> bool {
        &&& self.cache.wf()
        &&& self.written@.len() == self.processed_count
    }

    /// The text handed out so far.
    pub open spec fn output(&self) -> Seq<char> {
        if self.finalized {
            array_text(self.written@)
        } else {
            opening() + body(self.written@)
        }
    }

    /// The state at the start of a run, with the text that opens the
    /// output.
    pub fn create() -> (started: (ArchivalState, &'static str))
        ensures
            started.0.wf(),
            started.0.processed_count == 0,
            started.0.time_range is None,
            started.0.cache@ == Map::<crate::assets::AssetKeyView, Seq<char>>::empty(),
            !started.0.finalized,
            started.0.written@ == Seq::<Seq<char>>::empty(),
            started.1@ == opening(),
            started.0.output() == started.1@,
    {
        let state = ArchivalState {
            time_range: None,
            processed_count: 0,
            cache: AssetCache::new(),
            finalized: false,
            written: Ghost(Seq::empty()),
        };
        assert(opening() + body(Seq::<Seq<char>>::empty()) =~= opening());
        (state, "[\n")
    }

    /// Appends the record of one message: hands back the text to write,
    /// which is the record with its delimiter, counts the message and
    /// widens the observed range of timestamps by `timestamp`.
    pub fn append_record(&mut self, record: &str, timestamp: i64) -> (chunk: String)
        requires
            old(self).wf(),
            !old(self).finalized,
            old(self).processed_count < usize::MAX,
        ensures
            final(self).wf(),
            chunk@ == delimiter(old(self).processed_count as int) + record@,
            final(self).processed_count == old(self).processed_count + 1,
            final(self).time_range == Some(widened(old(self).time_range, timestamp)),
            final(self).cache == old(self).cache,
            !final(self).finalized,
            final(self).written@ == old(self).written@.push(record@),
            final(self).output() == old(self).output() + chunk@,
    {
        let mut chunk = if self.processed_count > 0 {
            String::from_str(",\n")
        } else {
            String::new()
        };
        chunk.append(record);
        let range = match self.time_range {
            None => (timestamp, timestamp),
            Some((earliest, latest)) => (
                if timestamp < earliest {
                    timestamp
                } else {
                    earliest
                },
                if timestamp > latest {
                    timestamp
                } else {
                    latest
                },
            ),
        };
        self.time_range = Some(range);
        self.processed_count = self.processed_count + 1;
        proof {
            let before = old(self).written@;
            let after = before.push(record@);
            self.written@ = after;
            assert(after.drop_last() =~= before);
            assert(opening() + body(after) =~= (opening() + body(before)) + chunk@);
        }
        chunk
    }

    /// Closes the output: hands back the text to write last. A run is
    /// closed once, whether or not it processed any message.
    pub fn finalize(&mut self) -> (tail: &'static str)
        requires
            old(self).wf(),
            !old(self).finalized,
        ensures
            final(self).wf(),
            final(self).finalized,
            tail@ == closing(),
            final(self).processed_count == old(self).processed_count,
            final(self).time_range == old(self).time_range,
            final(self).cache == old(self).cache,
            final(self).written@ == old(self).written@,
            final(self).output() == old(self).output() + tail@,
            final(self).output() == array_text(final(self).written@),
    {
        self.finalized = true;
        "\n]"
    }

    /// The range of timestamps that the run observed; for a run without a
    /// message, the moment `now` alone.
    pub fn observed_range(&self, now: i64) -> (range: (i64, i64))
        ensures
            range == match self.time_range {
                Some(range) => range,
                None => (now, now),
            },
    {
        match self.time_range {
            Some(range) => range,
            None => (now, now),
        }
    }
}

} // verus!
