//! A population-based stochastic optimizer: given a scoring function over
//! fixed-length byte sequences, it evolves a population of candidate
//! solutions across generations and streams snapshots of the current best
//! solution to the caller.

use vstd::prelude::*;

pub mod cell;
pub mod channel;
pub mod fitness;
pub mod parameters;
mod rng;
pub mod sim_result;
pub mod simulation;

pub use fitness::FitnessEvaluator;
pub use parameters::Parameters;
pub use sim_result::SimResult;

verus! {

/// Errors reported by the simulation lifecycle.
#[derive(Clone, Copy, Debug, PartialEq, Eq, Structural)]
pub enum SimulationError {
    /// `start` was invoked while a run was already active; no state changed.
    AlreadyRunning,
    /// `stop` was invoked while no run was active; no state changed.
    NotRunning,
    /// The stop signal could not be delivered, or the worker terminated
    /// abnormally; the controller still returns to idle.
    JoinError,
}

/// The lifecycle of the simulation runner: either no worker is active, or
/// exactly one is.
#[derive(Clone, Copy, Debug, PartialEq, Eq, Structural)]
pub enum RunState {
    Idle,
    Running,
}

/// What a `start` request does to the lifecycle: from `Idle` it succeeds and
/// moves to `Running`; from `Running` it fails with `AlreadyRunning` and
/// changes nothing.
pub open spec fn start_transition(state: RunState) -> (RunState, Result<(), SimulationError>) {
    match state {
        RunState::Idle => (RunState::Running, Ok(())),
        RunState::Running => (RunState::Running, Err(SimulationError::AlreadyRunning)),
    }
}

/// What a `stop` request does to the lifecycle, given whether the worker was
/// signalled and joined cleanly: from `Idle` it fails with `NotRunning` and
/// changes nothing; from `Running` it always returns to `Idle`, reporting
/// `JoinError` when the shutdown was not clean.
pub open spec fn stop_transition(state: RunState, clean: bool) -> (
    RunState,
    Result<(), SimulationError>,
) {
    match state {
        RunState::Idle => (RunState::Idle, Err(SimulationError::NotRunning)),
        RunState::Running => (
            RunState::Idle,
            if clean {
                Ok(())
            } else {
                Err(SimulationError::JoinError)
            },
        ),
    }
}

/// The decision half of the worker controller. It records whether a worker
/// is active and rules on every `start` and `stop` request; the caller that
/// owns the actual worker thread performs the spawning, signalling and
/// joining and reports the outcome back.
pub struct Controller {
    pub state: RunState,
}

impl Controller {
    pub open spec fn is_running(self) -> bool {
        self.state is Running
    }

    /// A controller with no active worker.
    pub fn new() -> (c: Controller)
        ensures
            c.state == RunState::Idle,
    {
        Controller { state: RunState::Idle }
    }

    /// Rule on a `start` request: succeed exactly when idle.
    pub fn start(&mut self) -> (r: Result<(), SimulationError>)
        ensures
            (final(self).state, r) == start_transition(old(self).state),
            old(self).state == RunState::Idle ==> r == Ok::<(), SimulationError>(())
                && final(self).state == RunState::Running,
            old(self).state == RunState::Running ==> r == Err::<(), SimulationError>(
                SimulationError::AlreadyRunning,
            ) && final(self).state == old(self).state,
    {
        match self.state {
            RunState::Idle => {
                self.state = RunState::Running;
                Ok(())
            },
            RunState::Running => Err(SimulationError::AlreadyRunning),
        }
    }

    /// Rule on a `stop` request, `clean` telling whether the worker was
    /// signalled and joined without fault: fail with `NotRunning` when idle,
    /// otherwise return to idle, reporting `JoinError` on an unclean
    /// shutdown.
    pub fn stop(&mut self, clean: bool) -> (r: Result<(), SimulationError>)
        ensures
            (final(self).state, r) == stop_transition(old(self).state, clean),
            old(self).state == RunState::Idle ==> r == Err::<(), SimulationError>(
                SimulationError::NotRunning,
            ) && final(self).state == old(self).state,
            old(self).state == RunState::Running ==> final(self).state == RunState::Idle,
            old(self).state == RunState::Running && clean ==> r == Ok::<(), SimulationError>(()),
            old(self).state == RunState::Running && !clean ==> r == Err::<(), SimulationError>(
                SimulationError::JoinError,
            ),
    {
        match self.state {
            RunState::Idle => Err(SimulationError::NotRunning),
            RunState::Running => {
                self.state = RunState::Idle;
                if clean {
                    Ok(())
                } else {
                    Err(SimulationError::JoinError)
                }
            },
        }
    }
}

/// Two `start` requests with no `stop` between them: the second always fails
/// with `AlreadyRunning` and leaves the running state untouched.
pub proof fn lemma_start_twice_already_running(state: RunState)
    ensures
        start_transition(start_transition(state).0).1 == Err::<(), SimulationError>(
            SimulationError::AlreadyRunning,
        ),
        start_transition(start_transition(state).0).0 == start_transition(state).0,
{
}

/// A `stop` request before any `start`: it fails with `NotRunning` and the
/// controller stays idle.
pub proof fn lemma_stop_before_start_not_running(clean: bool)
    ensures
        stop_transition(RunState::Idle, clean) == (
            RunState::Idle,
            Err::<(), SimulationError>(SimulationError::NotRunning),
        ),
{
}

/// A clean `stop` after a successful `start` succeeds and returns the
/// controller to idle.
pub proof fn lemma_start_then_stop_succeeds()
    ensures
        start_transition(RunState::Idle).1 == Ok::<(), SimulationError>(()),
        stop_transition(start_transition(RunState::Idle).0, true) == (
            RunState::Idle,
            Ok::<(), SimulationError>(()),
        ),
{
}

} // verus!
