//! Outcome of an interactive confirmation prompt.

use vstd::prelude::*;

verus! {

/// What the user answered to a confirmation prompt. A prompt that timed out
/// counts as `Canceled`.
#[must_use]
#[derive(Debug, Copy, Clone, PartialEq, Eq, Structural)]
pub enum ConfirmationResult {
    Confirmed,
    Canceled,
}

impl ConfirmationResult {
    /// `true` exactly for `Confirmed`.
    pub open spec fn as_bool(self) -> bool {
        self is Confirmed
    }

    /// The answer as a flag: `true` exactly for `Confirmed`.
    pub fn bool(&self) -> (confirmed: bool)
        ensures
            confirmed == self.as_bool(),
    {
        match self {
            ConfirmationResult::Confirmed => true,
            ConfirmationResult::Canceled => false,
        }
    }

    /// The answer that a flag stands for: `Confirmed` for `true`,
    /// `Canceled` for `false`.
    pub fn from_flag(value: bool) -> (answer: ConfirmationResult)
        ensures
            answer.as_bool() == value,
    {
        if value {
            ConfirmationResult::Confirmed
        } else {
            ConfirmationResult::Canceled
        }
    }
}

impl From<bool> for ConfirmationResult {
    fn from(value: bool) -> (answer: ConfirmationResult) {
        ConfirmationResult::from_flag(value)
    }
}

impl vstd::std_specs::convert::FromSpecImpl<bool> for ConfirmationResult {
    open spec fn obeys_from_spec() -> bool {
        true
    }

    open spec fn from_spec(value: bool) -> ConfirmationResult {
        if value {
            ConfirmationResult::Confirmed
        } else {
            ConfirmationResult::Canceled
        }
    }
}

} // verus!
