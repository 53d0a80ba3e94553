//! How a failed state update is reported.
use vstd::prelude::*;

verus! {

/// Errors that can occur when updating the sequencer state.
#[derive(Debug, Clone, Copy, PartialEq, Eq, Structural)]
pub enum SequencerStateUpdatorError {
    Shutdown,
    Unexpected,
}

/// A failed state update as reported to the node: a graceful shutdown, or
/// an unexpected error with its message.
#[derive(Debug)]
pub enum StateUpdateError {
    Shutdown,
    Unexpected(String),
}

impl SequencerStateUpdatorError {
    /// Shutdown stays a shutdown; anything else becomes an unexpected error
    /// telling that the sequencer cannot accept transactions.
    pub fn into_state_update_error(self) -> (r: StateUpdateError)
        ensures
            self == SequencerStateUpdatorError::Shutdown ==> r matches StateUpdateError::Shutdown,
            self == SequencerStateUpdatorError::Unexpected ==> (r matches StateUpdateError::Unexpected(m)
                && m@ == "The sequencer experienced an unexpected error and cannot accept transactions! See logs for more details."@),
    {
        match self {
            SequencerStateUpdatorError::Shutdown => StateUpdateError::Shutdown,
            SequencerStateUpdatorError::Unexpected => StateUpdateError::Unexpected(
                String::from_str(
                    "The sequencer experienced an unexpected error and cannot accept transactions! See logs for more details.",
                ),
            ),
        }
    }
}

} // verus!
