//! Recovery decisions: retrying a failed model execution after reloading the
//! model, and restarting an enclave whose heartbeat stopped. The caller runs
//! the executions, reloads and relaunches; these functions decide what comes
//! next.
use vstd::prelude::*;

verus! {

/// How many times a failed execution is retried, each after a model reload.
pub const MAX_RETRIES: u32 = 3;

/// What the inference engine does after an execution.
#[derive(Debug, Clone, Copy, PartialEq, Eq, Structural)]
pub enum FallbackAction {
    /// Return the execution's result.
    ReturnResult,
    /// Reload the model and execute again.
    ReloadAndRetry,
    /// Give up and return the execution's error.
    ReturnError,
}

/// The next action and retry count after an execution made at retry count
/// `attempt` succeeded or failed.
pub open spec fn spec_fallback_step(attempt: u32, succeeded: bool) -> (FallbackAction, u32) {
    if succeeded {
        (FallbackAction::ReturnResult, attempt)
    } else if attempt < MAX_RETRIES {
        (FallbackAction::ReloadAndRetry, (attempt + 1) as u32)
    } else {
        (FallbackAction::ReturnError, attempt)
    }
}

/// Decides what follows an execution made at retry count `attempt`: a success
/// is returned; a failure is retried while fewer than `MAX_RETRIES` reloads
/// were made, and returned otherwise.
pub fn fallback_step(attempt: u32, succeeded: bool) -> (r: (FallbackAction, u32))
    ensures
        r == spec_fallback_step(attempt, succeeded),
{
    if succeeded {
        (FallbackAction::ReturnResult, attempt)
    } else if attempt < MAX_RETRIES {
        (FallbackAction::ReloadAndRetry, attempt + 1)
    } else {
        (FallbackAction::ReturnError, attempt)
    }
}

/// The action the engine ends with and the number of executions it makes,
/// starting at retry count `attempt`, when its executions succeed or fail as
/// `outcomes` lists them. While outcomes remain to be seen the action is
/// `ReloadAndRetry`.
pub open spec fn fallback_run(attempt: u32, outcomes: Seq<bool>) -> (FallbackAction, nat)
    decreases outcomes.len(),
{
    if outcomes.len() == 0 {
        (FallbackAction::ReloadAndRetry, 0)
    } else {
        let (action, next) = spec_fallback_step(attempt, outcomes[0]);
        if action == FallbackAction::ReloadAndRetry {
            (fallback_run(next, outcomes.drop_first()).0, fallback_run(next, outcomes.drop_first()).1 + 1)
        } else {
            (action, 1)
        }
    }
}

/// Starting at retry count `attempt`, the engine stops within
/// `MAX_RETRIES - attempt + 1` executions; it returns an error exactly when all
/// of them failed, and otherwise returns the result of the first execution that
/// succeeded.
pub proof fn lemma_fallback_terminates(attempt: u32, outcomes: Seq<bool>)
    requires
        attempt <= MAX_RETRIES,
        outcomes.len() >= MAX_RETRIES - attempt + 1,
    ensures
        fallback_run(attempt, outcomes).0 != FallbackAction::ReloadAndRetry,
        1 <= fallback_run(attempt, outcomes).1 <= MAX_RETRIES - attempt + 1,
        fallback_run(attempt, outcomes).0 == FallbackAction::ReturnError <==> forall|i: int|
            0 <= i < MAX_RETRIES - attempt + 1 ==> !outcomes[i],
        fallback_run(attempt, outcomes).0 == FallbackAction::ReturnResult ==> {
            let n = fallback_run(attempt, outcomes).1 as int;
            &&& outcomes[n - 1]
            &&& forall|i: int| 0 <= i < n - 1 ==> !outcomes[i]
        },
    decreases MAX_RETRIES - attempt,
{
    if !outcomes[0] && attempt < MAX_RETRIES {
        let rest = outcomes.drop_first();
        lemma_fallback_terminates((attempt + 1) as u32, rest);
        assert forall|i: int| 0 <= i < MAX_RETRIES - attempt + 1 && i > 0 implies outcomes[i] == rest[i - 1] by {}
        if fallback_run(attempt, outcomes).0 == FallbackAction::ReturnError {
            assert forall|i: int| 0 <= i < MAX_RETRIES - attempt + 1 implies !outcomes[i] by {
                if i > 0 {
                    assert(!rest[i - 1]);
                }
            }
        } else {
            let n = fallback_run((attempt + 1) as u32, rest).1 as int;
            assert(exists|i: int| 0 <= i < MAX_RETRIES - (attempt + 1) + 1 && rest[i]);
            let i = choose|i: int| 0 <= i < MAX_RETRIES - (attempt + 1) + 1 && rest[i];
            assert(outcomes[i + 1]);
            assert forall|k: int| 0 <= k < n implies !outcomes[k] by {
                if k > 0 {
                    assert(!rest[k - 1]);
                }
            }
        }
    }
}

/// How long the monitor waits between heartbeat checks, in seconds.
pub const HEARTBEAT_INTERVAL_SECS: u64 = 30;

/// What the monitor does to an enclave.
#[derive(Debug, Clone, Copy, PartialEq, Eq, Structural)]
pub enum EnclaveAction {
    /// Launch the enclave again.
    Relaunch,
    /// Obtain a fresh attestation for the relaunched enclave.
    RotateAttestation,
}

/// The actions after a heartbeat check: none for a live enclave; a relaunch and
/// then a fresh attestation for one that missed its heartbeat.
pub open spec fn spec_heartbeat_actions(alive: bool) -> Seq<EnclaveAction> {
    if alive {
        Seq::empty()
    } else {
        seq![EnclaveAction::Relaunch, EnclaveAction::RotateAttestation]
    }
}

/// Decides what to do about an enclave after a heartbeat check.
pub fn heartbeat_actions(alive: bool) -> (r: Vec<EnclaveAction>)
    ensures
        r@ == spec_heartbeat_actions(alive),
{
    let mut actions: Vec<EnclaveAction> = Vec::new();
    if !alive {
        actions.push(EnclaveAction::Relaunch);
        actions.push(EnclaveAction::RotateAttestation);
    }
    proof {
        if alive {
            assert(actions@ =~= spec_heartbeat_actions(alive));
        } else {
            assert(actions@ =~= spec_heartbeat_actions(alive));
        }
    }
    actions
}

} // verus!
