//! Runs of a task, and what holds of every run.
//!
//! The cancellation flag is shared between threads, so what a task sees when
//! it looks at the flag is not something its own code determines. A run is
//! therefore described from outside: by the sequence of values the task saw,
//! or, where time matters, by the moments at which it looked and the moment
//! at which the timer was stopped.

use crate::task::{Action, Phase, TaskKind, TaskState};
use vstd::prelude::*;

verus! {

/// The state of a task that started in `start` and has since looked at the
/// flag `n` times, seeing `seen[0]`, ..., `seen[n - 1]`.
pub open spec fn state_after(start: TaskState, seen: Seq<bool>, n: nat) -> TaskState
    decreases n,
{
    if n == 0 {
        start
    } else {
        state_after(start, seen, (n - 1) as nat).next(seen[n - 1])
    }
}

/// What the task does at its look number `i` (counted from zero).
pub open spec fn action_at(start: TaskState, seen: Seq<bool>, i: nat) -> Action {
    state_after(start, seen, i).action_on(seen[i as int])
}

/// How often the work is run in the first `n` looks.
pub open spec fn invocations(start: TaskState, seen: Seq<bool>, n: nat) -> nat
    decreases n,
{
    if n == 0 {
        0
    } else {
        let earlier = invocations(start, seen, (n - 1) as nat);
        if action_at(start, seen, (n - 1) as nat) is Invoke {
            earlier + 1
        } else {
            earlier
        }
    }
}

/// A run never changes what kind of task it is, nor its period.
pub proof fn lemma_kind_and_period_kept(start: TaskState, seen: Seq<bool>, n: nat)
    ensures
        state_after(start, seen, n).kind == start.kind,
        state_after(start, seen, n).period_ms == start.period_ms,
    decreases n,
{
    if n > 0 {
        lemma_kind_and_period_kept(start, seen, (n - 1) as nat);
    }
}

/// Cancellation is final: once a look has found the flag cleared, the task
/// is over, and every later look ends in `Exit` whatever the flag shows then.
pub proof fn lemma_cancelled_for_good(start: TaskState, seen: Seq<bool>, i: nat, j: nat)
    requires
        i < j,
        !seen[i as int],
    ensures
        state_after(start, seen, j).terminated(),
        action_at(start, seen, j) is Exit,
    decreases j,
{
    if j > i + 1 {
        lemma_cancelled_for_good(start, seen, i, (j - 1) as nat);
    }
}

/// The work is run only at a look that found the flag set.
pub proof fn lemma_invoked_only_when_seen_active(start: TaskState, seen: Seq<bool>, i: nat)
    requires
        action_at(start, seen, i) is Invoke,
    ensures
        seen[i as int],
        state_after(start, seen, i).phase is Sleeping,
{
}

/// A task whose first look finds the flag cleared never runs its work.
pub proof fn lemma_cancelled_at_first_look(start: TaskState, seen: Seq<bool>, n: nat)
    requires
        start.phase is Pending,
        n > 0 ==> !seen[0],
    ensures
        invocations(start, seen, n) == 0,
    decreases n,
{
    if n > 0 {
        lemma_cancelled_at_first_look(start, seen, (n - 1) as nat);
        if n > 1 {
            lemma_cancelled_for_good(start, seen, 0, (n - 1) as nat);
        }
    }
}

/// The phases of a timeout are fixed by its first two looks: it sleeps if
/// the first finds the flag set, completes if the second does too, and is
/// cancelled otherwise.
pub proof fn lemma_timeout_phases(delay_ms: u64, seen: Seq<bool>, n: nat)
    ensures
        state_after(TaskState::fresh(TaskKind::Once, delay_ms), seen, n).phase == (if n == 0 {
            Phase::Pending
        } else if !seen[0] {
            Phase::Cancelled
        } else if n == 1 {
            Phase::Sleeping
        } else if seen[1] {
            Phase::Completed
        } else {
            Phase::Cancelled
        }),
    decreases n,
{
    if n > 0 {
        lemma_timeout_phases(delay_ms, seen, (n - 1) as nat);
        lemma_kind_and_period_kept(
            TaskState::fresh(TaskKind::Once, delay_ms),
            seen,
            (n - 1) as nat,
        );
    }
}

/// A timeout runs its work at most once: exactly once if it got to look at
/// the flag twice and found it set both times, and never otherwise.
pub proof fn lemma_timeout_at_most_once(delay_ms: u64, seen: Seq<bool>, n: nat)
    ensures
        invocations(TaskState::fresh(TaskKind::Once, delay_ms), seen, n) == (if n >= 2 && seen[0]
            && seen[1] {
            1nat
        } else {
            0nat
        }),
    decreases n,
{
    if n > 0 {
        lemma_timeout_at_most_once(delay_ms, seen, (n - 1) as nat);
        lemma_timeout_phases(delay_ms, seen, (n - 1) as nat);
    }
}

/// Whether the flag is set at time `t`, for a timer that is stopped at
/// `stop_at` (never, if `None`): it is set up to that moment and cleared from
/// then on.
pub open spec fn active_at(stop_at: Option<nat>, t: nat) -> bool {
    match stop_at {
        Some(s) => t < s,
        None => true,
    }
}

/// The moment from which the flag is cleared, after a call of `stop` at time
/// `now`: the earlier stop stands.
pub open spec fn stopped(stop_at: Option<nat>, now: nat) -> Option<nat> {
    match stop_at {
        Some(s) => if s <= now {
            Some(s)
        } else {
            Some(now)
        },
        None => Some(now),
    }
}

/// What a task sees that looks at the flag at the moments `times`.
pub open spec fn sightings(stop_at: Option<nat>, times: Seq<nat>) -> Seq<bool> {
    Seq::new(times.len(), |i: int| active_at(stop_at, times[i]))
}

/// The time an action takes at the least, in milliseconds.
pub open spec fn pause(action: Action) -> nat {
    match action {
        Action::Sleep(ms) => ms as nat,
        _ => 0,
    }
}

/// The moments `times` are possible for a task started in `start`: time
/// does not run backwards, and after a sleep the task looks again no
/// earlier than the sleep was asked to last. Scheduling jitter and the time
/// the work takes may delay a look by any amount.
pub open spec fn keeps_time(start: TaskState, stop_at: Option<nat>, times: Seq<nat>) -> bool {
    forall|i: nat|
        i + 1 < times.len() ==> times[i as int] + pause(
            #[trigger] action_at(start, sightings(stop_at, times), i),
        ) <= times[i as int + 1]
}

/// The moments `times` are those of a run without any jitter, in which the
/// work takes no time.
pub open spec fn punctual(start: TaskState, stop_at: Option<nat>, times: Seq<nat>) -> bool {
    forall|i: nat|
        i + 1 < times.len() ==> times[i as int] + pause(
            #[trigger] action_at(start, sightings(stop_at, times), i),
        ) == times[i as int + 1]
}

/// How often the work is run up to the moment `deadline`, among the first
/// `n` looks of a task that looks at the flag at the moments `times`.
pub open spec fn invocations_by(
    start: TaskState,
    stop_at: Option<nat>,
    times: Seq<nat>,
    n: nat,
    deadline: nat,
) -> nat
    decreases n,
{
    if n == 0 {
        0
    } else {
        let earlier = invocations_by(start, stop_at, times, (n - 1) as nat, deadline);
        if action_at(start, sightings(stop_at, times), (n - 1) as nat) is Invoke && times[n - 1]
            <= deadline {
            earlier + 1
        } else {
            earlier
        }
    }
}

/// Stopping is idempotent: after a first stop the flag is cleared, and a
/// further stop changes nothing.
pub proof fn lemma_stop_is_idempotent(stop_at: Option<nat>, first: nat, again: nat)
    requires
        first <= again,
    ensures
        !active_at(stopped(stop_at, first), again),
        stopped(stopped(stop_at, first), again) == stopped(stop_at, first),
{
}

/// A stop clears the flag and never sets it: what was cleared stays so.
pub proof fn lemma_stop_only_clears(stop_at: Option<nat>, now: nat, t: nat)
    ensures
        active_at(stopped(stop_at, now), t) == (active_at(stop_at, t) && t < now),
{
}

/// No work is started once the timer is stopped: a look at or after the
/// moment of the stop never leads to an invocation, whatever the task's kind
/// and state. (Work that was started before the stop is not interrupted.)
pub proof fn lemma_silent_after_stop(start: TaskState, stop_at: nat, times: Seq<nat>, i: nat)
    requires
        i < times.len(),
        stop_at <= times[i as int],
    ensures
        !(action_at(start, sightings(Some(stop_at), times), i) is Invoke),
{
}

/// A task that is scheduled on a stopped timer never runs its work.
pub proof fn lemma_scheduled_after_stop(
    kind: TaskKind,
    period_ms: u64,
    stop_at: nat,
    times: Seq<nat>,
    n: nat,
)
    requires
        n <= times.len(),
        n > 0 ==> stop_at <= times[0],
    ensures
        invocations(TaskState::fresh(kind, period_ms), sightings(Some(stop_at), times), n) == 0,
{
    lemma_cancelled_at_first_look(
        TaskState::fresh(kind, period_ms),
        sightings(Some(stop_at), times),
        n,
    );
}

/// A timeout whose timer is stopped before its delay has passed never runs
/// its work.
pub proof fn lemma_timeout_stopped_in_time(delay_ms: u64, stop_at: nat, times: Seq<nat>, n: nat)
    requires
        n <= times.len(),
        keeps_time(TaskState::fresh(TaskKind::Once, delay_ms), Some(stop_at), times),
        n > 0 ==> stop_at <= times[0] + delay_ms,
    ensures
        invocations(
            TaskState::fresh(TaskKind::Once, delay_ms),
            sightings(Some(stop_at), times),
            n,
        ) == 0,
{
    let start = TaskState::fresh(TaskKind::Once, delay_ms);
    let seen = sightings(Some(stop_at), times);
    lemma_timeout_at_most_once(delay_ms, seen, n);
    if n >= 2 && seen[0] {
        assert(action_at(start, seen, 0) == Action::Sleep(delay_ms));
    }
}

/// A timeout whose timer is never stopped runs its work exactly once, at
/// its second look at the flag.
pub proof fn lemma_timeout_not_stopped(delay_ms: u64, times: Seq<nat>, n: nat)
    requires
        2 <= n <= times.len(),
    ensures
        invocations(TaskState::fresh(TaskKind::Once, delay_ms), sightings(None, times), n) == 1,
        action_at(TaskState::fresh(TaskKind::Once, delay_ms), sightings(None, times), 1)
            is Invoke,
{
    let seen = sightings(None, times);
    lemma_timeout_at_most_once(delay_ms, seen, n);
    lemma_timeout_phases(delay_ms, seen, 1);
}

/// Time does not run backwards in a run that keeps time.
pub proof fn lemma_times_ordered(
    start: TaskState,
    stop_at: Option<nat>,
    times: Seq<nat>,
    i: nat,
    j: nat,
)
    requires
        keeps_time(start, stop_at, times),
        i <= j < times.len(),
    ensures
        times[i as int] <= times[j as int],
    decreases j - i,
{
    if i < j {
        lemma_times_ordered(start, stop_at, times, i, (j - 1) as nat);
        let before = action_at(start, sightings(stop_at, times), (j - 1) as nat);
        assert(times[j - 1] + pause(before) <= times[j as int]);
    }
}

/// A task that is asleep was sent to sleep, for its period, at its look
/// before.
pub proof fn lemma_asleep_since_last_look(start: TaskState, seen: Seq<bool>, n: nat)
    requires
        n > 0,
        state_after(start, seen, n).phase is Sleeping,
    ensures
        action_at(start, seen, (n - 1) as nat) == Action::Sleep(start.period_ms),
{
    lemma_kind_and_period_kept(start, seen, (n - 1) as nat);
}

/// The work is not run before the delay or period has passed since the
/// task was scheduled.
pub proof fn lemma_invoked_after_delay(
    kind: TaskKind,
    period_ms: u64,
    stop_at: Option<nat>,
    times: Seq<nat>,
    i: nat,
)
    requires
        i < times.len(),
        keeps_time(TaskState::fresh(kind, period_ms), stop_at, times),
        action_at(TaskState::fresh(kind, period_ms), sightings(stop_at, times), i) is Invoke,
    ensures
        times[0] + period_ms <= times[i as int],
{
    let start = TaskState::fresh(kind, period_ms);
    let seen = sightings(stop_at, times);
    lemma_asleep_since_last_look(start, seen, i);
    assert(times[i - 1] + pause(action_at(start, seen, (i - 1) as nat)) <= times[i as int]);
    lemma_times_ordered(start, stop_at, times, 0, (i - 1) as nat);
}

/// Between two runs of the work at least one period passes.
pub proof fn lemma_invocations_spaced(
    start: TaskState,
    stop_at: Option<nat>,
    times: Seq<nat>,
    i: nat,
    j: nat,
)
    requires
        i < j < times.len(),
        keeps_time(start, stop_at, times),
        action_at(start, sightings(stop_at, times), i) is Invoke,
        action_at(start, sightings(stop_at, times), j) is Invoke,
    ensures
        times[i as int] + start.period_ms <= times[j as int],
{
    let seen = sightings(stop_at, times);
    lemma_asleep_since_last_look(start, seen, j);
    assert(times[j - 1] + pause(action_at(start, seen, (j - 1) as nat)) <= times[j as int]);
    lemma_times_ordered(start, stop_at, times, i, (j - 1) as nat);
}

/// Each run of the work costs an interval one period: by its look number
/// `n - 1`, as many periods have passed since it was scheduled as it has run
/// its work.
pub proof fn lemma_interval_elapsed(
    period_ms: u64,
    stop_at: Option<nat>,
    times: Seq<nat>,
    n: nat,
)
    requires
        1 <= n <= times.len(),
        keeps_time(TaskState::fresh(TaskKind::Repeating, period_ms), stop_at, times),
    ensures
        times[0] + invocations(
            TaskState::fresh(TaskKind::Repeating, period_ms),
            sightings(stop_at, times),
            n,
        ) * period_ms <= times[n - 1],
    decreases n,
{
    let start = TaskState::fresh(TaskKind::Repeating, period_ms);
    let seen = sightings(stop_at, times);
    if n == 1 {
        assert(invocations(start, seen, 0) == 0);
        assert(invocations(start, seen, 1) == 0);
        assert(0 * period_ms == 0);
    } else {
        let m = (n - 1) as nat;
        let earlier = invocations(start, seen, m);
        lemma_interval_elapsed(period_ms, stop_at, times, m);
        assert(times[m - 1] + pause(action_at(start, seen, (m - 1) as nat)) <= times[m as int]);
        if action_at(start, seen, m) is Invoke {
            lemma_asleep_since_last_look(start, seen, m);
            assert((earlier + 1) * period_ms == earlier * period_ms + period_ms)
                by (nonlinear_arith);
        }
    }
}

/// An interval that is watched for `window` milliseconds from the moment it
/// was scheduled runs its work at most `window / period_ms` times in that
/// window, whatever the jitter and whenever the timer is stopped.
pub proof fn lemma_interval_bound(
    period_ms: u64,
    stop_at: Option<nat>,
    times: Seq<nat>,
    n: nat,
    window: nat,
)
    requires
        period_ms > 0,
        1 <= n <= times.len(),
        keeps_time(TaskState::fresh(TaskKind::Repeating, period_ms), stop_at, times),
    ensures
        invocations_by(
            TaskState::fresh(TaskKind::Repeating, period_ms),
            stop_at,
            times,
            n,
            times[0] + window,
        ) <= window / (period_ms as nat),
        invocations_by(
            TaskState::fresh(TaskKind::Repeating, period_ms),
            stop_at,
            times,
            n,
            times[0] + window,
        ) <= invocations(
            TaskState::fresh(TaskKind::Repeating, period_ms),
            sightings(stop_at, times),
            n,
        ),
    decreases n,
{
    let start = TaskState::fresh(TaskKind::Repeating, period_ms);
    let seen = sightings(stop_at, times);
    let m = (n - 1) as nat;
    let p = period_ms as nat;
    if m == 0 {
        assert(invocations_by(start, stop_at, times, 0, times[0] + window) == 0);
        assert(invocations(start, seen, 0) == 0);
        assert(0 <= window / p) by (nonlinear_arith)
            requires
                p > 0,
        ;
    } else {
        lemma_interval_bound(period_ms, stop_at, times, m, window);
    }
    if action_at(start, seen, m) is Invoke && times[m as int] <= times[0] + window {
        let count = invocations(start, seen, n);
        lemma_interval_elapsed(period_ms, stop_at, times, n);
        assert(count <= window / p) by (nonlinear_arith)
            requires
                p > 0,
                count * p <= window,
        ;
    }
}

/// An interval that finds the flag set at every look sleeps at every even
/// look and runs its work at every odd one.
pub proof fn lemma_interval_not_stopped(period_ms: u64, seen: Seq<bool>, n: nat)
    requires
        forall|i: int| 0 <= i < n ==> seen[i],
    ensures
        state_after(TaskState::fresh(TaskKind::Repeating, period_ms), seen, n).phase == (if n % 2
            == 0 {
            Phase::Pending
        } else {
            Phase::Sleeping
        }),
        invocations(TaskState::fresh(TaskKind::Repeating, period_ms), seen, n) == n / 2,
    decreases n,
{
    if n > 0 {
        lemma_interval_not_stopped(period_ms, seen, (n - 1) as nat);
        lemma_kind_and_period_kept(
            TaskState::fresh(TaskKind::Repeating, period_ms),
            seen,
            (n - 1) as nat,
        );
    }
}

/// In a punctual run of an interval whose timer is never stopped, look
/// number `n` happens when `(n + 1) / 2` periods have passed.
pub proof fn lemma_interval_punctual_times(period_ms: u64, times: Seq<nat>, n: nat)
    requires
        n < times.len(),
        punctual(TaskState::fresh(TaskKind::Repeating, period_ms), None, times),
    ensures
        times[n as int] == times[0] + ((n + 1) / 2) * period_ms,
    decreases n,
{
    let start = TaskState::fresh(TaskKind::Repeating, period_ms);
    let seen = sightings(None, times);
    let periods = (n + 1) / 2;
    if n == 0 {
        assert(periods == 0);
        assert(periods * period_ms == 0);
    } else {
        let m = (n - 1) as nat;
        let before = (m + 1) / 2;
        lemma_interval_punctual_times(period_ms, times, m);
        lemma_interval_not_stopped(period_ms, seen, m);
        lemma_kind_and_period_kept(start, seen, m);
        assert(times[m as int] + pause(action_at(start, seen, m)) == times[n as int]);
        if m % 2 == 0 {
            assert(action_at(start, seen, m) == Action::Sleep(period_ms));
            assert(periods == before + 1);
            assert((before + 1) * period_ms == before * period_ms + period_ms)
                by (nonlinear_arith);
        } else {
            assert(action_at(start, seen, m) is Invoke);
            assert(periods == before);
        }
    }
}

/// In a punctual run of an interval whose timer is never stopped, the work
/// has run `min(n / 2, window / period_ms)` times within `window`
/// milliseconds of scheduling, among the first `n` looks.
pub proof fn lemma_interval_punctual_progress(
    period_ms: u64,
    times: Seq<nat>,
    n: nat,
    window: nat,
)
    requires
        period_ms > 0,
        n <= times.len(),
        punctual(TaskState::fresh(TaskKind::Repeating, period_ms), None, times),
    ensures
        invocations_by(
            TaskState::fresh(TaskKind::Repeating, period_ms),
            None,
            times,
            n,
            times[0] + window,
        ) == (if n / 2 <= window / (period_ms as nat) {
            n / 2
        } else {
            window / (period_ms as nat)
        }),
    decreases n,
{
    let start = TaskState::fresh(TaskKind::Repeating, period_ms);
    let seen = sightings(None, times);
    let p = period_ms as nat;
    if n > 0 {
        let m = (n - 1) as nat;
        lemma_interval_punctual_progress(period_ms, times, m, window);
        lemma_interval_not_stopped(period_ms, seen, m);
        lemma_interval_punctual_times(period_ms, times, m);
        if m % 2 == 1 {
            let runs = n / 2;
            assert(runs == (m + 1) / 2 && runs == m / 2 + 1);
            assert(action_at(start, seen, m) is Invoke);
            assert(runs * p <= window <==> runs <= window / p) by (nonlinear_arith)
                requires
                    p > 0,
            ;
        } else {
            assert(n / 2 == m / 2);
        }
    }
}

/// An interval with period `period_ms` that runs without jitter, and whose
/// timer is not stopped, runs its work exactly `window / period_ms` times in
/// the first `window` milliseconds after it was scheduled.
pub proof fn lemma_interval_punctual_count(period_ms: u64, times: Seq<nat>, window: nat)
    requires
        period_ms > 0,
        times.len() >= 2 * (window / (period_ms as nat)),
        punctual(TaskState::fresh(TaskKind::Repeating, period_ms), None, times),
    ensures
        invocations_by(
            TaskState::fresh(TaskKind::Repeating, period_ms),
            None,
            times,
            times.len(),
            times[0] + window,
        ) == window / (period_ms as nat),
{
    lemma_interval_punctual_progress(period_ms, times, times.len(), window);
}

} // verus!
