//! The decision core of committing execution results: which effect of an
//! execution outcome is applied, and what a commit outcome yields.  Running
//! the execution engine itself is the host's job; it hands the outcomes back
//! as plain values.

use vstd::prelude::*;

verus! {

/// One deploy's execution outcome, as the execution engine reports it: the
/// effect to apply (modelled as key and transform identifiers) and the cost,
/// with an error code on failure.  The effect is applied whether or not
/// execution succeeded: a failed deploy still pays.
#[derive(Clone, PartialEq, Eq, Debug)]
pub enum ExecutionOutcome {
    Success { effect: Vec<(u64, u64)>, cost: u64 },
    Failure { effect: Vec<(u64, u64)>, cost: u64, error: u64 },
}

/// What committing an effect to global state yields.
#[derive(Clone, Copy, PartialEq, Eq, Structural, Debug)]
pub enum CommitOutcome {
    /// The new state root after a successful commit.
    Success { state_root: u64 },
    /// The pre-state root was not found.
    RootNotFound,
    /// A key addressed by the effect was not found.
    KeyNotFound,
    /// A transform did not match the stored value's type.
    TypeMismatch,
}

/// The effect to commit for a deploy's execution outcome: success or
/// failure, the deploy's effect is applied.
pub fn execution_effect(outcome: ExecutionOutcome) -> (r: Vec<(u64, u64)>)
    ensures
        r == (match outcome {
            ExecutionOutcome::Success { effect, .. } => effect,
            ExecutionOutcome::Failure { effect, .. } => effect,
        }),
{
    match outcome {
        ExecutionOutcome::Success { effect, .. } => effect,
        ExecutionOutcome::Failure { effect, .. } => effect,
    }
}

/// Interprets the outcome of committing execution effects: only a successful
/// commit yields the new state root hash; any other outcome is an internal
/// contract runtime error.
pub fn interpret_commit(outcome: CommitOutcome) -> (r: Result<u64, ()>)
    ensures
        r == (match outcome {
            CommitOutcome::Success { state_root } => Ok::<u64, ()>(state_root),
            _ => Err::<u64, ()>(()),
        }),
{
    match outcome {
        CommitOutcome::Success { state_root } => Ok(state_root),
        _ => Err(()),
    }
}

} // verus!
