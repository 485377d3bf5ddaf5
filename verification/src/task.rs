//! The decisions of a single timer task, as a state machine.
//!
//! A task alternates between looking at the cancellation flag and doing
//! something that takes time (sleeping, running the caller's work). Only the
//! decisions live here: [`TaskState::step`] maps the current state and one
//! observation of the flag to the next state and the action to perform.

use vstd::prelude::*;

verus! {

/// How often a task may run its work.
#[derive(Clone, Copy, Debug, PartialEq, Eq, Structural)]
pub enum TaskKind {
    /// A timeout: the work runs at most once.
    Once,
    /// An interval: the work runs again after every period until cancelled.
    Repeating,
}

/// Where a task stands between two looks at the cancellation flag.
#[derive(Clone, Copy, Debug, PartialEq, Eq, Structural)]
pub enum Phase {
    /// About to start a cycle: the next look decides whether to sleep.
    Pending,
    /// Asleep or just woken: the next look decides whether to run the work.
    Sleeping,
    /// Ended because the flag was seen cleared.
    Cancelled,
    /// Ended because a timeout has run its work.
    Completed,
}

/// What the driver of a task has to do after a step.
#[derive(Clone, Copy, Debug, PartialEq, Eq, Structural)]
pub enum Action {
    /// Suspend for this many milliseconds, then step again.
    Sleep(u64),
    /// Run the work once, then step again.
    Invoke,
    /// Leave: the task is over and will never run its work again.
    Exit,
}

/// The local state of one task.
#[derive(Clone, Copy, Debug, PartialEq, Eq, Structural)]
pub struct TaskState {
    pub kind: TaskKind,
    /// The delay of a timeout or the period of an interval, in milliseconds.
    pub period_ms: u64,
    pub phase: Phase,
}

impl TaskState {
    /// The state of a task that has just been scheduled.
    pub open spec fn fresh(kind: TaskKind, period_ms: u64) -> TaskState {
        TaskState { kind, period_ms, phase: Phase::Pending }
    }

    /// A task is over once it was cancelled or has completed.
    pub open spec fn terminated(self) -> bool {
        self.phase is Cancelled || self.phase is Completed
    }

    /// The action taken when the flag is observed as `active`.
    ///
    /// The work is run only from `Sleeping` and only if the flag is still
    /// set; a cleared flag always ends the task.
    pub open spec fn action_on(self, active: bool) -> Action {
        if self.terminated() || !active {
            Action::Exit
        } else if self.phase is Pending {
            Action::Sleep(self.period_ms)
        } else {
            Action::Invoke
        }
    }

    /// The phase entered when the flag is observed as `active`.
    pub open spec fn phase_on(self, active: bool) -> Phase {
        if self.terminated() {
            self.phase
        } else if !active {
            Phase::Cancelled
        } else if self.phase is Pending {
            Phase::Sleeping
        } else if self.kind is Once {
            Phase::Completed
        } else {
            Phase::Pending
        }
    }

    /// The state after one observation of the flag.
    pub open spec fn next(self, active: bool) -> TaskState {
        TaskState { phase: self.phase_on(active), ..self }
    }

    /// A freshly scheduled timeout with the given delay.
    pub fn once(delay_ms: u64) -> (s: TaskState)
        ensures
            s == TaskState::fresh(TaskKind::Once, delay_ms),
    {
        TaskState { kind: TaskKind::Once, period_ms: delay_ms, phase: Phase::Pending }
    }

    /// A freshly scheduled interval with the given period.
    pub fn repeating(interval_ms: u64) -> (s: TaskState)
        ensures
            s == TaskState::fresh(TaskKind::Repeating, interval_ms),
    {
        TaskState { kind: TaskKind::Repeating, period_ms: interval_ms, phase: Phase::Pending }
    }

    /// Whether the task is over.
    pub fn is_terminated(&self) -> (b: bool)
        ensures
            b == self.terminated(),
    {
        match self.phase {
            Phase::Cancelled | Phase::Completed => true,
            Phase::Pending | Phase::Sleeping => false,
        }
    }

    /// Takes one observation of the cancellation flag and decides what the
    /// task does next.
    pub fn step(self, active: bool) -> (r: (TaskState, Action))
        ensures
            r.0 == self.next(active),
            r.1 == self.action_on(active),
    {
        if self.is_terminated() {
            (self, Action::Exit)
        } else if !active {
            (TaskState { phase: Phase::Cancelled, ..self }, Action::Exit)
        } else {
            match self.phase {
                Phase::Pending => (
                    TaskState { phase: Phase::Sleeping, ..self },
                    Action::Sleep(self.period_ms),
                ),
                _ => {
                    let after = match self.kind {
                        TaskKind::Once => Phase::Completed,
                        TaskKind::Repeating => Phase::Pending,
                    };
                    (TaskState { phase: after, ..self }, Action::Invoke)
                },
            }
        }
    }
}

} // verus!
