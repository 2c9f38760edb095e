//! Rate-limited progress reporting.
//!
//! A reporter owns a report function and decides, from a clock reading that
//! the caller hands in, whether a progress report is due. Clock readings are
//! milliseconds on a monotonic clock; a reading that lies before the last
//! report counts as no time elapsed.

use vstd::prelude::*;

verus! {

/// Milliseconds elapsed between `last` and `now`, zero where `now` lies before
/// `last`.
pub open spec fn elapsed_since(last: u64, now: u64) -> int {
    if now >= last {
        now - last
    } else {
        0
    }
}

/// Milliseconds elapsed between `last` and `now`, zero where `now` lies before
/// `last`.
pub fn elapsed(last: u64, now: u64) -> (ms: u64)
    ensures
        ms == elapsed_since(last, now),
{
    if now >= last {
        now - last
    } else {
        0
    }
}

/// The interface that both reporting policies satisfy: "is a report due now"
/// and "report, marking the last-reported state".
pub trait Reporter<Message, ReportFunc: Fn(Message, bool) -> Outcome, Outcome>: Sized {
    /// Whether the policy asks for a report at clock reading `now`.
    spec fn due_at(&self, now: u64) -> bool;

    /// The reporter as it is after a report made at clock reading `now`.
    spec fn marked(self, now: u64) -> Self;

    /// The report function that the reporter owns.
    spec fn report_fn(&self) -> ReportFunc;

    /// What the reporter needs to hold for its arithmetic to be defined.
    spec fn well_formed(&self) -> bool;

    /// Whether a report is due at clock reading `now`.
    fn is_report_due(&self, now: u64) -> (due: bool)
        requires
            self.well_formed(),
        ensures
            due == self.due_at(now),
    ;

    /// Hands `message` and `is_due` to the report function and marks `now`
    /// as the moment of the last report, whatever `is_due` says.
    fn maybe_report(&mut self, message: Message, is_due: bool, now: u64) -> (outcome: Outcome)
        requires
            old(self).well_formed(),
            call_requires(old(self).report_fn(), (message, is_due)),
        ensures
            *final(self) == old(self).marked(now),
            call_ensures(old(self).report_fn(), (message, is_due), outcome),
    ;

    /// Reports `message` with the flag that the policy gives at `now`.
    fn report(&mut self, message: Message, now: u64) -> (outcome: Outcome)
        requires
            old(self).well_formed(),
            call_requires(old(self).report_fn(), (message, old(self).due_at(now))),
        ensures
            *final(self) == old(self).marked(now),
            call_ensures(old(self).report_fn(), (message, old(self).due_at(now)), outcome),
    {
        let due = self.is_report_due(now);
        self.maybe_report(message, due, now)
    }

    /// Reports `message` as due, whatever the policy says.
    fn force_report(&mut self, message: Message, now: u64) -> (outcome: Outcome)
        requires
            old(self).well_formed(),
            call_requires(old(self).report_fn(), (message, true)),
        ensures
            *final(self) == old(self).marked(now),
            call_ensures(old(self).report_fn(), (message, true), outcome),
    {
        self.maybe_report(message, true, now)
    }
}

/// The time-only policy: a report is due once more than `min_interval`
/// milliseconds have passed since the last one.
pub struct SimpleReporter<ReportFunc> {
    pub last_report: u64,
    pub min_interval: u64,
    pub report_function: ReportFunc,
}

impl<ReportFunc> SimpleReporter<ReportFunc> {
    /// A report is due once more than the minimum interval has passed
    /// since the last one.
    pub open spec fn is_due(&self, now: u64) -> bool {
        elapsed_since(self.last_report, now) > self.min_interval
    }

    /// The reporter after a report made at `now`.
    pub open spec fn reported(self, now: u64) -> Self {
        SimpleReporter { last_report: now, ..self }
    }

    /// A reporter whose last report counts as made at `now`.
    pub fn new(min_interval: u64, now: u64, report_function: ReportFunc) -> (reporter: Self)
        ensures
            reporter.last_report == now,
            reporter.min_interval == min_interval,
            reporter.report_function == report_function,
    {
        SimpleReporter { last_report: now, min_interval, report_function }
    }

    /// Gives the report function back, so that another policy can take it
    /// over.
    pub fn into_report_function(self) -> (report_function: ReportFunc)
        ensures
            report_function == self.report_function,
    {
        self.report_function
    }
}

impl<Message, ReportFunc: Fn(Message, bool) -> Outcome, Outcome> Reporter<
    Message,
    ReportFunc,
    Outcome,
> for SimpleReporter<ReportFunc> {
    open spec fn due_at(&self, now: u64) -> bool {
        self.is_due(now)
    }

    open spec fn marked(self, now: u64) -> Self {
        self.reported(now)
    }

    open spec fn report_fn(&self) -> ReportFunc {
        self.report_function
    }

    open spec fn well_formed(&self) -> bool {
        true
    }

    fn is_report_due(&self, now: u64) -> (due: bool) {
        elapsed(self.last_report, now) > self.min_interval
    }

    fn maybe_report(&mut self, message: Message, is_due: bool, now: u64) -> (outcome: Outcome) {
        self.last_report = now;
        (self.report_function)(message, is_due)
    }
}

/// The time-and-count policy: a report is due when at least `min_count`
/// items were counted since the last report and, besides, either `max_count`
/// items were counted or `max_interval` milliseconds have passed.
pub struct CountingReporter<ReportFunc> {
    pub last_report: u64,
    /// The shortest pause that a caller pacing its reports by time alone
    /// should keep. The rule of this policy does not read it.
    pub min_interval: u64,
    pub max_interval: u64,
    pub last_count: usize,
    pub current_count: usize,
    pub min_count: usize,
    pub max_count: usize,
    pub report_function: ReportFunc,
}

impl<ReportFunc> CountingReporter<ReportFunc> {
    /// Items counted since the last report.
    pub open spec fn elapsed_count(&self) -> int {
        self.current_count - self.last_count
    }

    /// A report is due when the minimum count was reached and, besides,
    /// the maximum count or the maximum interval.
    pub open spec fn is_due(&self, now: u64) -> bool {
        self.elapsed_count() >= self.min_count && (self.elapsed_count() >= self.max_count
            || elapsed_since(self.last_report, now) >= self.max_interval)
    }

    /// The reporter after a report made at `now`.
    pub open spec fn reported(self, now: u64) -> Self {
        CountingReporter { last_report: now, last_count: self.current_count, ..self }
    }

    /// A reporter whose last report counts as made at `now`, with
    /// `current_count` items counted so far.
    pub fn new(
        min_interval: u64,
        max_interval: u64,
        current_count: usize,
        min_count: usize,
        max_count: usize,
        now: u64,
        report_function: ReportFunc,
    ) -> (reporter: Self)
        ensures
            reporter.last_report == now,
            reporter.min_interval == min_interval,
            reporter.max_interval == max_interval,
            reporter.last_count == current_count,
            reporter.current_count == current_count,
            reporter.min_count == min_count,
            reporter.max_count == max_count,
            reporter.report_function == report_function,
    {
        CountingReporter {
            last_report: now,
            min_interval,
            max_interval,
            last_count: current_count,
            current_count,
            min_count,
            max_count,
            report_function,
        }
    }

    /// A reporter that starts counting at zero, asks for at least one new
    /// item per report and keeps the other thresholds as given.
    pub fn new_with_defaults(
        max_interval: u64,
        max_count: usize,
        now: u64,
        report_function: ReportFunc,
    ) -> (reporter: Self)
        ensures
            reporter.last_report == now,
            reporter.min_interval == 1000,
            reporter.max_interval == max_interval,
            reporter.last_count == 0,
            reporter.current_count == 0,
            reporter.min_count == 1,
            reporter.max_count == max_count,
            reporter.report_function == report_function,
    {
        Self::new(1000, max_interval, 0, 1, max_count, now, report_function)
    }

    /// Gives the report function back.
    pub fn into_report_function(self) -> (report_function: ReportFunc)
        ensures
            report_function == self.report_function,
    {
        self.report_function
    }
}

impl<Message, ReportFunc: Fn(Message, bool) -> Outcome, Outcome> Reporter<
    Message,
    ReportFunc,
    Outcome,
> for CountingReporter<ReportFunc> {
    open spec fn due_at(&self, now: u64) -> bool {
        self.is_due(now)
    }

    open spec fn marked(self, now: u64) -> Self {
        self.reported(now)
    }

    open spec fn report_fn(&self) -> ReportFunc {
        self.report_function
    }

    open spec fn well_formed(&self) -> bool {
        self.last_count <= self.current_count
    }

    fn is_report_due(&self, now: u64) -> (due: bool) {
        let counted: usize = self.current_count - self.last_count;
        counted >= self.min_count && (counted >= self.max_count || elapsed(self.last_report, now)
            >= self.max_interval)
    }

    fn maybe_report(&mut self, message: Message, is_due: bool, now: u64) -> (outcome: Outcome) {
        self.last_report = now;
        self.last_count = self.current_count;
        (self.report_function)(message, is_due)
    }
}

/// The time-only policy never reports twice within the minimum interval:
/// after a report at `now`, the next is due exactly once more than the
/// interval has passed.
pub proof fn lemma_simple_waits<ReportFunc>(
    reporter: SimpleReporter<ReportFunc>,
    now: u64,
    later: u64,
)
    ensures
        reporter.reported(now).is_due(later) <==> later > now + reporter.min_interval,
{
}

/// The hybrid policy never floods: it asks for no report before the
/// minimum count was reached, and after a report none at all until
/// something new was counted.
pub proof fn lemma_counting_never_floods<ReportFunc>(
    reporter: CountingReporter<ReportFunc>,
    now: u64,
    later: u64,
)
    ensures
        reporter.is_due(now) ==> reporter.elapsed_count() >= reporter.min_count,
        reporter.min_count > 0 ==> !reporter.reported(now).is_due(later),
{
}

/// The hybrid policy never starves: once the minimum count was reached, a
/// report is due as soon as the maximum interval has passed, however
/// slowly the count moves, and as soon as the maximum count was reached,
/// however little time has passed.
pub proof fn lemma_counting_never_starves<ReportFunc>(
    reporter: CountingReporter<ReportFunc>,
    now: u64,
)
    requires
        reporter.elapsed_count() >= reporter.min_count,
    ensures
        elapsed_since(reporter.last_report, now) >= reporter.max_interval ==> reporter.is_due(now),
        reporter.elapsed_count() >= reporter.max_count ==> reporter.is_due(now),
{
}

} // verus!
