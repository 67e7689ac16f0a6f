//! The exclusivity gate: a single-permit guard over one shared run state.
use vstd::prelude::*;

verus! {

/// Whether a probe execution currently holds a gate.
#[derive(Clone, Copy, Debug, PartialEq, Eq, Structural)]
pub enum RunState {
    Idle,
    Running,
}

/// The state reached from `s` when a run is requested, and whether the
/// request was admitted: only an idle gate admits one.
pub open spec fn acquire_step(s: RunState) -> (RunState, bool) {
    (RunState::Running, s == RunState::Idle)
}

/// The state reached when a run completes: always idle.
pub open spec fn release_step(s: RunState) -> RunState {
    RunState::Idle
}

/// A guard that admits at most one holder at a time.
///
/// Callers that share a gate across tasks keep it behind a lock that is
/// held only for the duration of one of these calls, so that each call is
/// one indivisible step.
pub struct Gate {
    state: RunState,
}

impl View for Gate {
    type V = RunState;

    closed spec fn view(&self) -> RunState {
        self.state
    }
}

impl Gate {
    /// A gate in the idle state.
    pub fn new() -> (g: Gate)
        ensures
            g@ == RunState::Idle,
    {
        Gate { state: RunState::Idle }
    }

    /// Takes this gate if it is idle. Returns whether it was taken; a busy
    /// gate is left as it is.
    pub fn try_acquire(&mut self) -> (acquired: bool)
        ensures
            (final(self)@, acquired) == acquire_step(old(self)@),
            !acquired ==> *final(self) == *old(self),
    {
        match self.state {
            RunState::Idle => {
                self.state = RunState::Running;
                true
            },
            RunState::Running => false,
        }
    }

    /// Returns this gate to idle, whatever its state.
    pub fn release(&mut self)
        ensures
            final(self)@ == release_step(old(self)@),
    {
        self.state = RunState::Idle;
    }

    /// Whether this gate is currently held.
    pub fn is_running(&self) -> (running: bool)
        ensures
            running == (self@ == RunState::Running),
    {
        match self.state {
            RunState::Idle => false,
            RunState::Running => true,
        }
    }
}

} // verus!
