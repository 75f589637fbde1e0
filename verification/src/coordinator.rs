//! The memory-map/exit coordinator: acquire a memory map, hand its key to
//! the firmware's exit-services call, and retry exactly once when the key
//! had gone stale. The decisions are a state machine here; whoever talks to
//! the firmware performs the calls and reports each outcome back.

use vstd::prelude::*;

use crate::uefi::EfiStatus;

verus! {

/// Where the exit protocol stands: still inside boot services, exited, or
/// given up after the allowed retry.
#[derive(Clone, Copy, Debug, PartialEq, Eq, Structural)]
pub enum CoordinatorState {
    Active,
    Exited,
    Failed,
}

/// What the caller must do next after reporting an exit-services outcome.
#[derive(Clone, Copy, Debug, PartialEq, Eq, Structural)]
pub enum ExitDirective {
    /// Boot services have ended; hand off to the kernel.
    Done,
    /// Re-acquire the memory map and call exit-services once more with the
    /// fresh key.
    RetryWithFreshMap,
    /// Unrecoverable; halt with the carried status.
    Fatal(EfiStatus),
}

/// The exit-services protocol: at most two attempts, a retry only for a
/// stale-key failure on the first.
pub struct Coordinator {
    state: CoordinatorState,
    exit_attempts: u64,
}

impl Coordinator {
    pub closed spec fn spec_state(&self) -> CoordinatorState {
        self.state
    }

    pub closed spec fn spec_attempts(&self) -> int {
        self.exit_attempts as int
    }

    pub open spec fn wf(&self) -> bool {
        &&& 0 <= self.spec_attempts() <= 2
        &&& self.spec_state() == CoordinatorState::Active ==> self.spec_attempts() <= 1
        &&& self.spec_attempts() == 0 ==> self.spec_state() == CoordinatorState::Active
    }

    /// A fresh coordinator: boot services still active, no attempt made.
    pub fn new() -> (r: Coordinator)
        ensures
            r.wf(),
            r.spec_state() == CoordinatorState::Active,
            r.spec_attempts() == 0,
    {
        Coordinator { state: CoordinatorState::Active, exit_attempts: 0 }
    }

    pub fn state(&self) -> (r: CoordinatorState)
        ensures
            r == self.spec_state(),
    {
        self.state
    }

    pub fn exit_attempts(&self) -> (r: u64)
        ensures
            r == self.spec_attempts(),
    {
        self.exit_attempts
    }

    /// Record the outcome of one exit-services call made with the key of a
    /// freshly acquired map. Success exits; a stale-key failure
    /// (`InvalidParameter`) on the first attempt asks for exactly one
    /// retry; any other failure, and a stale key on the retry, is fatal.
    /// The protocol never allows a third call.
    pub fn record_exit_attempt(&mut self, status: EfiStatus) -> (r: ExitDirective)
        requires
            old(self).wf(),
            old(self).spec_state() == CoordinatorState::Active,
        ensures
            final(self).wf(),
            final(self).spec_attempts() == old(self).spec_attempts() + 1,
            final(self).spec_state() == next_state(old(self).spec_attempts(), status),
            r == directive_for(old(self).spec_attempts(), status),
    {
        self.exit_attempts = self.exit_attempts + 1;
        if status == EfiStatus::Success {
            self.state = CoordinatorState::Exited;
            ExitDirective::Done
        } else if status == EfiStatus::InvalidParameter && self.exit_attempts == 1 {
            ExitDirective::RetryWithFreshMap
        } else {
            self.state = CoordinatorState::Failed;
            ExitDirective::Fatal(status)
        }
    }
}

/// The state an active coordinator with `attempts` exit calls behind it
/// moves to when the next call reports `status`.
pub open spec fn next_state(attempts: int, status: EfiStatus) -> CoordinatorState {
    if status == EfiStatus::Success {
        CoordinatorState::Exited
    } else if status == EfiStatus::InvalidParameter && attempts == 0 {
        CoordinatorState::Active
    } else {
        CoordinatorState::Failed
    }
}

/// The directive the coordinator hands back for that same call.
pub open spec fn directive_for(attempts: int, status: EfiStatus) -> ExitDirective {
    if status == EfiStatus::Success {
        ExitDirective::Done
    } else if status == EfiStatus::InvalidParameter && attempts == 0 {
        ExitDirective::RetryWithFreshMap
    } else {
        ExitDirective::Fatal(status)
    }
}

/// A stale key on the first call asks for one retry and stays active; when
/// the retried call succeeds the coordinator is exited after exactly those
/// two calls — and after any two calls it is no longer active, so its own
/// precondition forbids a third exit-services call, whatever the two
/// outcomes were.
pub proof fn lemma_one_retry_only(first: EfiStatus, second: EfiStatus)
    ensures
        next_state(0, first) == CoordinatorState::Active <==> first
            == EfiStatus::InvalidParameter,
        first == EfiStatus::InvalidParameter && second == EfiStatus::Success ==> next_state(
            1,
            second,
        ) == CoordinatorState::Exited && directive_for(1, second) == ExitDirective::Done,
        first == EfiStatus::InvalidParameter && second != EfiStatus::Success ==> next_state(
            1,
            second,
        ) == CoordinatorState::Failed && directive_for(1, second) == ExitDirective::Fatal(second),
        next_state(1, second) != CoordinatorState::Active,
{
}

} // verus!
