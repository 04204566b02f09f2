use highway::execution::{execution_effect, interpret_commit, CommitOutcome, ExecutionOutcome};

#[test]
fn execution_effect_is_applied_on_success_and_failure() {
    let effect = vec![(1, 10), (2, 20)];
    let ok = ExecutionOutcome::Success { effect: effect.clone(), cost: 100 };
    assert_eq!(effect, execution_effect(ok));
    // A failed deploy still pays: its effect is applied too.
    let failed = ExecutionOutcome::Failure { effect: effect.clone(), cost: 100, error: 3 };
    assert_eq!(effect, execution_effect(failed));
}

#[test]
fn only_a_successful_commit_yields_a_state_root() {
    assert_eq!(Ok(42), interpret_commit(CommitOutcome::Success { state_root: 42 }));
    assert_eq!(Err(()), interpret_commit(CommitOutcome::RootNotFound));
    assert_eq!(Err(()), interpret_commit(CommitOutcome::KeyNotFound));
    assert_eq!(Err(()), interpret_commit(CommitOutcome::TypeMismatch));
}
