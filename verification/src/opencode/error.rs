//! Errors of running a coding agent.
use vstd::prelude::*;

verus! {

/// Errors of running a coding agent.
#[derive(Debug, PartialEq)]
pub enum ExecutorError<S = String> {
    /// Something failed, for the reason given.
    Io(S),
    /// The agent's provider wants the user to authenticate.
    AuthRequired(S),
}

impl DeepView for ExecutorError {
    type V = ExecutorError<Seq<char>>;

    open spec fn deep_view(&self) -> ExecutorError<Seq<char>> {
        match *self {
            ExecutorError::Io(s) => ExecutorError::Io(s@),
            ExecutorError::AuthRequired(s) => ExecutorError::AuthRequired(s@),
        }
    }
}

} // verus!
