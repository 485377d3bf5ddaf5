//! The timer: owner of the cancellation flag, and the tasks that watch it.
//!
//! The flag is an atomic boolean shared between the timer and every task
//! scheduled on it. Nothing here spawns a thread or sleeps: a task is handed
//! out as a [`TimerTask`], and whoever drives it calls
//! [`TimerTask::advance`] and performs the action that comes back.

use crate::task::{Action, TaskKind, TaskState};
use std::sync::atomic::{AtomicBool, Ordering};
use std::sync::Arc;
use vstd::prelude::*;

verus! {

/// Owns the cancellation flag that all tasks scheduled on it share.
///
/// The flag is set from construction until the first call of
/// [`Timer::stop`]; dropping the timer stops it.
pub struct Timer {
    active: Arc<AtomicBool>,
}

/// One scheduled task: its local state and its share of the timer's flag.
pub struct TimerTask {
    state: TaskState,
    active: Arc<AtomicBool>,
}

impl Timer {
    /// The flag of this timer. As a value it stands for the flag's identity
    /// only: what the flag holds can change under a shared reference, so no
    /// specification can speak of it.
    pub closed spec fn flag(&self) -> AtomicBool {
        *self.active
    }

    /// A timer whose flag is set.
    pub fn new() -> Timer {
        Timer { active: Arc::new(AtomicBool::new(true)) }
    }

    /// Schedules work that is to run once, after `delay` milliseconds.
    ///
    /// The task starts out pending and watches this timer's flag.
    pub fn set_timeout(&self, delay: u64) -> (task: TimerTask)
        ensures
            task@ == TaskState::fresh(TaskKind::Once, delay),
            task.flag() == self.flag(),
    {
        TimerTask { state: TaskState::once(delay), active: self.active.clone() }
    }

    /// Schedules work that is to run every `interval_ms` milliseconds.
    ///
    /// The task starts out pending and watches this timer's flag.
    pub fn set_interval(&self, interval_ms: u64) -> (task: TimerTask)
        ensures
            task@ == TaskState::fresh(TaskKind::Repeating, interval_ms),
            task.flag() == self.flag(),
    {
        TimerTask { state: TaskState::repeating(interval_ms), active: self.active.clone() }
    }

    /// Clears the flag, for every task that watches it. May be called any
    /// number of times, from any thread.
    pub fn stop(&self) {
        self.active.store(false, Ordering::Relaxed);
    }
}

impl View for TimerTask {
    type V = TaskState;

    /// The local state of the task.
    closed spec fn view(&self) -> TaskState {
        self.state
    }
}

impl TimerTask {
    /// The flag that the task watches.
    pub closed spec fn flag(&self) -> AtomicBool {
        *self.active
    }

    /// The local state of the task.
    pub fn state(&self) -> (s: TaskState)
        ensures
            s == self@,
    {
        self.state
    }

    /// Looks at the flag, unless the task is over already, and moves the
    /// task one step on. The action that comes back is the one the task's
    /// state prescribes for what the flag showed, whatever that was.
    pub fn advance(&mut self) -> (action: Action)
        ensures
            final(self).flag() == old(self).flag(),
            exists|seen: bool|
                final(self)@ == #[trigger] old(self)@.next(seen) && action == old(
                    self,
                )@.action_on(seen),
            old(self)@.terminated() ==> action is Exit && final(self)@ == old(self)@,
    {
        if self.state.is_terminated() {
            assert(self@ == old(self)@.next(true));
            return Action::Exit;
        }
        let seen = self.active.load(Ordering::Relaxed);
        let (state, action) = self.state.step(seen);
        self.state = state;
        assert(self@ == old(self)@.next(seen));
        action
    }
}

impl Drop for Timer {
    /// Stops the timer. The body is `AtomicBool::store` with relaxed
    /// ordering, which is taken not to unwind: the store panics only when
    /// given an acquiring ordering.
    #[verifier::external_body]
    fn drop(&mut self)
        opens_invariants none
        no_unwind
    {
        self.active.store(false, Ordering::Relaxed);
    }
}

} // verus!
