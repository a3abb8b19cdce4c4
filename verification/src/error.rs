//! The ways an aggregation can fail.

use vstd::prelude::*;
use vstd::string::StringExecFns;

verus! {

/// Why an operation gave no summary.
///
/// A metric that is undefined for a summary (too few points, no bounds) is
/// no error: it is reported as `None`.
#[derive(Clone, Copy, Debug, PartialEq, Eq, Hash, Structural)]
pub enum CounterError {
    /// The caller's input is unusable: a point that does not come after the
    /// last one absorbed, or an unknown extrapolation method.
    InvalidInput,
    /// The aggregation state contradicts itself: bounds that do not contain
    /// the observed points, or summaries that overlap in time.
    InconsistentState,
}

impl CounterError {
    /// A sentence for the user.
    pub fn message(&self) -> (s: String)
        ensures
            s@ == match *self {
                CounterError::InvalidInput => {
                    "invalid input: points out of order or unknown analysis method"@
                },
                CounterError::InconsistentState => {
                    "inconsistent state: counter bounds invalid or summaries overlap"@
                },
            },
    {
        match self {
            CounterError::InvalidInput => String::from_str(
                "invalid input: points out of order or unknown analysis method",
            ),
            CounterError::InconsistentState => String::from_str(
                "inconsistent state: counter bounds invalid or summaries overlap",
            ),
        }
    }
}

} // verus!
