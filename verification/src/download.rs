//! The retry policy of asset downloads: a failed fetch is tried again up
//! to a fixed number of times, without a pause; when the retries are used
//! up, the last error stands.

use vstd::prelude::*;

verus! {

/// The number of times a failed download is tried again.
pub const MAX_RETRIES: u32 = 3;

/// The retries that one download has left.
#[derive(Debug, Copy, Clone, PartialEq, Eq, Structural)]
pub struct RetryBudget {
    pub retries_left: u32,
}

impl RetryBudget {
    /// The budget of a download that has not failed yet.
    pub fn new() -> (budget: Self)
        ensures
            budget.retries_left == MAX_RETRIES,
    {
        RetryBudget { retries_left: MAX_RETRIES }
    }

    /// Records a failed attempt and says whether another one is due: it is
    /// while a retry is left, and that retry is then used up.
    pub fn after_failure(&mut self) -> (again: bool)
        ensures
            again == (old(self).retries_left > 0),
            final(self).retries_left == if old(self).retries_left > 0 {
                old(self).retries_left - 1
            } else {
                0
            },
    {
        if self.retries_left > 0 {
            self.retries_left = self.retries_left - 1;
            true
        } else {
            false
        }
    }
}

/// Runs `attempt` until it succeeds or the retries are used up. The value
/// of the first success comes back, or the error of the last attempt.
pub fn with_retries<Value, Failure, Attempt: Fn() -> Result<Value, Failure>>(
    attempt: &Attempt,
) -> (outcome: Result<Value, Failure>)
    requires
        call_requires(*attempt, ()),
    ensures
        call_ensures(*attempt, (), outcome),
{
    let mut budget = RetryBudget::new();
    loop
        invariant
            call_requires(*attempt, ()),
            budget.retries_left <= MAX_RETRIES,
        decreases budget.retries_left,
    {
        let outcome = attempt();
        if outcome.is_ok() {
            return outcome;
        }
        if !budget.after_failure() {
            return outcome;
        }
    }
}

} // verus!
