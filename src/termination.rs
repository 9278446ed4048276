//! Two-phase termination of a driver process as an explicit state machine:
//! Running, then Interrupting, then Terminating, ending Terminated or
//! TerminationFailed. The machine decides; its driver sends the signals and
//! waits for the deadlines it names.
use vstd::prelude::*;

use crate::error::ManagerError;

verus! {

/// How a process ended: its exit code, absent where a signal ended it.
#[derive(Debug, Clone, Copy, PartialEq, Eq, Structural)]
pub struct ExitStatus {
    pub code: Option<i32>,
}

#[derive(Debug, Clone, Copy, PartialEq, Eq, Structural)]
pub enum TerminationState {
    /// The process runs; no termination was asked for yet.
    Running,
    /// A graceful interrupt was sent; waiting for the process to exit.
    Interrupting,
    /// A forced kill was sent; waiting for the process to exit.
    Terminating,
    /// The process exited with this status.
    Terminated(ExitStatus),
    /// The process outlived both phases.
    TerminationFailed,
}

/// What the driver of the machine observed.
#[derive(Debug, Clone, Copy, PartialEq, Eq, Structural)]
pub enum TerminationEvent {
    /// Termination was asked for.
    Requested,
    /// The process exited.
    Exited(ExitStatus),
    /// The deadline of the current phase passed with the process alive.
    DeadlineElapsed,
    /// The signal of the current phase could not be sent.
    SignalFailed,
}

/// What the driver of the machine must do next.
#[derive(Debug, Clone, Copy, PartialEq, Eq, Structural)]
pub enum TerminationAction {
    /// Send a graceful interrupt, then wait at most `wait_ms` for the exit.
    Interrupt { wait_ms: u64 },
    /// Send a forced kill, then wait at most `wait_ms` for the exit.
    Kill { wait_ms: u64 },
    /// Report this exit status.
    Finish(ExitStatus),
    /// Report that termination failed.
    Fail,
    /// Nothing: the event does not apply in this state.
    Idle,
}

/// The termination controller of one process handle, with the deadline of
/// each phase in milliseconds.
#[derive(Debug, Clone, Copy, PartialEq, Eq, Structural)]
pub struct Termination {
    pub state: TerminationState,
    pub interrupt_timeout_ms: u64,
    pub terminate_timeout_ms: u64,
}

pub open spec fn is_final(s: TerminationState) -> bool {
    s is Terminated || s is TerminationFailed
}

/// How far along the chain a state is.
pub open spec fn rank(s: TerminationState) -> nat {
    match s {
        TerminationState::Running => 0,
        TerminationState::Interrupting => 1,
        TerminationState::Terminating => 2,
        _ => 3,
    }
}

/// One transition: the next state and the action to perform.
pub open spec fn next(m: Termination, e: TerminationEvent) -> (TerminationState, TerminationAction) {
    match (m.state, e) {
        (TerminationState::Running, TerminationEvent::Requested) => (
            TerminationState::Interrupting,
            TerminationAction::Interrupt { wait_ms: m.interrupt_timeout_ms },
        ),
        (TerminationState::Running, TerminationEvent::Exited(s)) => (
            TerminationState::Terminated(s),
            TerminationAction::Finish(s),
        ),
        (TerminationState::Interrupting, TerminationEvent::Exited(s)) => (
            TerminationState::Terminated(s),
            TerminationAction::Finish(s),
        ),
        (TerminationState::Interrupting, TerminationEvent::DeadlineElapsed) => (
            TerminationState::Terminating,
            TerminationAction::Kill { wait_ms: m.terminate_timeout_ms },
        ),
        (TerminationState::Interrupting, TerminationEvent::SignalFailed) => (
            TerminationState::Terminating,
            TerminationAction::Kill { wait_ms: m.terminate_timeout_ms },
        ),
        (TerminationState::Terminating, TerminationEvent::Exited(s)) => (
            TerminationState::Terminated(s),
            TerminationAction::Finish(s),
        ),
        (TerminationState::Terminating, TerminationEvent::DeadlineElapsed) => (
            TerminationState::TerminationFailed,
            TerminationAction::Fail,
        ),
        (TerminationState::Terminating, TerminationEvent::SignalFailed) => (
            TerminationState::TerminationFailed,
            TerminationAction::Fail,
        ),
        _ => (m.state, TerminationAction::Idle),
    }
}

impl Termination {
    /// A controller for a running process.
    pub fn new(interrupt_timeout_ms: u64, terminate_timeout_ms: u64) -> (r: Termination)
        ensures
            r == (Termination {
                state: TerminationState::Running,
                interrupt_timeout_ms,
                terminate_timeout_ms,
            }),
    {
        Termination { state: TerminationState::Running, interrupt_timeout_ms, terminate_timeout_ms }
    }

    /// Takes one event and names the action it calls for.
    pub fn step(&mut self, e: TerminationEvent) -> (a: TerminationAction)
        ensures
            (final(self).state, a) == next(*old(self), e),
            final(self).interrupt_timeout_ms == old(self).interrupt_timeout_ms,
            final(self).terminate_timeout_ms == old(self).terminate_timeout_ms,
    {
        let (s, a) = match (self.state, e) {
            (TerminationState::Running, TerminationEvent::Requested) => (
                TerminationState::Interrupting,
                TerminationAction::Interrupt { wait_ms: self.interrupt_timeout_ms },
            ),
            (TerminationState::Running, TerminationEvent::Exited(s)) => (
                TerminationState::Terminated(s),
                TerminationAction::Finish(s),
            ),
            (TerminationState::Interrupting, TerminationEvent::Exited(s)) => (
                TerminationState::Terminated(s),
                TerminationAction::Finish(s),
            ),
            (TerminationState::Interrupting, TerminationEvent::DeadlineElapsed) => (
                TerminationState::Terminating,
                TerminationAction::Kill { wait_ms: self.terminate_timeout_ms },
            ),
            (TerminationState::Interrupting, TerminationEvent::SignalFailed) => (
                TerminationState::Terminating,
                TerminationAction::Kill { wait_ms: self.terminate_timeout_ms },
            ),
            (TerminationState::Terminating, TerminationEvent::Exited(s)) => (
                TerminationState::Terminated(s),
                TerminationAction::Finish(s),
            ),
            (TerminationState::Terminating, TerminationEvent::DeadlineElapsed) => (
                TerminationState::TerminationFailed,
                TerminationAction::Fail,
            ),
            (TerminationState::Terminating, TerminationEvent::SignalFailed) => (
                TerminationState::TerminationFailed,
                TerminationAction::Fail,
            ),
            _ => (self.state, TerminationAction::Idle),
        };
        self.state = s;
        a
    }

    /// The result of termination once the machine has ended: the exit status,
    /// or `TerminationFailed`.
    pub fn outcome(&self) -> (r: Option<Result<ExitStatus, ManagerError>>)
        ensures
            self.state matches TerminationState::Terminated(s) ==> r == Some(
                Ok::<ExitStatus, ManagerError>(s),
            ),
            self.state is TerminationFailed ==> r == Some(
                Err::<ExitStatus, ManagerError>(ManagerError::TerminationFailed),
            ),
            !is_final(self.state) ==> r is None,
    {
        match self.state {
            TerminationState::Terminated(s) => Some(Ok(s)),
            TerminationState::TerminationFailed => Some(Err(ManagerError::TerminationFailed)),
            _ => None,
        }
    }
}

/// The machine after `events`, and the actions it named on the way.
pub open spec fn run_events(m: Termination, events: Seq<TerminationEvent>) -> (
    Termination,
    Seq<TerminationAction>,
)
    decreases events.len(),
{
    if events.len() == 0 {
        (m, seq![])
    } else {
        let (s, a) = next(m, events[0]);
        let (last, rest) = run_events(Termination { state: s, ..m }, events.drop_first());
        (last, seq![a] + rest)
    }
}

/// The longest wait that an action asks for.
pub open spec fn wait_of(a: TerminationAction) -> int {
    match a {
        TerminationAction::Interrupt { wait_ms } => wait_ms as int,
        TerminationAction::Kill { wait_ms } => wait_ms as int,
        _ => 0,
    }
}

/// The total wait that a list of actions asks for.
pub open spec fn total_wait(acts: Seq<TerminationAction>) -> int
    decreases acts.len(),
{
    if acts.len() == 0 {
        0
    } else {
        wait_of(acts[0]) + total_wait(acts.drop_first())
    }
}

/// The wait still allowed from a state: both deadlines while running, the
/// kill deadline while interrupting, none after.
pub open spec fn allowance(m: Termination) -> int {
    match m.state {
        TerminationState::Running => m.interrupt_timeout_ms + m.terminate_timeout_ms,
        TerminationState::Interrupting => m.terminate_timeout_ms as int,
        _ => 0,
    }
}

/// Every transition moves forward along the chain, strictly so whenever it
/// calls for an action, and an ended machine stays as it is.
pub proof fn lemma_transitions_move_forward(m: Termination, e: TerminationEvent)
    ensures
        rank(next(m, e).0) >= rank(m.state),
        next(m, e).1 != TerminationAction::Idle ==> rank(next(m, e).0) > rank(m.state),
        next(m, e).1 == TerminationAction::Idle ==> next(m, e).0 == m.state,
        is_final(m.state) ==> next(m, e) == (m.state, TerminationAction::Idle),
{
}

/// Whatever the events, the waits a machine asks for add up to no more than
/// what its state still allows: from a running process, the interrupt deadline
/// plus the kill deadline. Termination never waits beyond them.
pub proof fn lemma_termination_wait_is_bounded(m: Termination, events: Seq<TerminationEvent>)
    ensures
        total_wait(run_events(m, events).1) <= allowance(m),
    decreases events.len(),
{
    if events.len() > 0 {
        let (s, a) = next(m, events[0]);
        let m2 = Termination { state: s, ..m };
        lemma_termination_wait_is_bounded(m2, events.drop_first());
        let acts = run_events(m, events).1;
        assert(acts == seq![a] + run_events(m2, events.drop_first()).1);
        assert(acts.drop_first() =~= run_events(m2, events.drop_first()).1);
    }
}

/// An ended machine ignores every further event.
pub proof fn lemma_ended_machine_stays(m: Termination, events: Seq<TerminationEvent>)
    requires
        is_final(m.state),
    ensures
        run_events(m, events).0 == m,
    decreases events.len(),
{
    if events.len() > 0 {
        assert(next(m, events[0]).0 == m.state);
        assert(Termination { state: m.state, ..m } == m);
        lemma_ended_machine_stays(m, events.drop_first());
    }
}

} // verus!
