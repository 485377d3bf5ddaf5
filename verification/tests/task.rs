use timer::task::{Action, Phase, TaskKind, TaskState};

#[test]
fn fresh_tasks_are_pending() {
    let once = TaskState::once(200);
    assert_eq!(once, TaskState { kind: TaskKind::Once, period_ms: 200, phase: Phase::Pending });
    assert!(!once.is_terminated());
    let every = TaskState::repeating(100);
    assert_eq!(
        every,
        TaskState { kind: TaskKind::Repeating, period_ms: 100, phase: Phase::Pending }
    );
    assert!(!every.is_terminated());
}

#[test]
fn timeout_sleeps_then_runs_once() {
    let s0 = TaskState::once(200);
    let (s1, a1) = s0.step(true);
    assert_eq!(a1, Action::Sleep(200));
    assert_eq!(s1.phase, Phase::Sleeping);
    let (s2, a2) = s1.step(true);
    assert_eq!(a2, Action::Invoke);
    assert_eq!(s2.phase, Phase::Completed);
    assert!(s2.is_terminated());
    let (s3, a3) = s2.step(true);
    assert_eq!(a3, Action::Exit);
    assert_eq!(s3, s2);
}

#[test]
fn timeout_cancelled_before_sleeping() {
    let (s1, a1) = TaskState::once(1000).step(false);
    assert_eq!(a1, Action::Exit);
    assert_eq!(s1.phase, Phase::Cancelled);
    assert!(s1.is_terminated());
    let (s2, a2) = s1.step(true);
    assert_eq!(a2, Action::Exit);
    assert_eq!(s2, s1);
}

#[test]
fn timeout_cancelled_during_sleep() {
    let (s1, _) = TaskState::once(1000).step(true);
    let (s2, a2) = s1.step(false);
    assert_eq!(a2, Action::Exit);
    assert_eq!(s2.phase, Phase::Cancelled);
    assert_eq!(s2.kind, TaskKind::Once);
    assert_eq!(s2.period_ms, 1000);
}

#[test]
fn interval_cycles_until_cancelled() {
    let mut s = TaskState::repeating(100);
    let mut runs = 0;
    for _ in 0..3 {
        let (after_check, a) = s.step(true);
        assert_eq!(a, Action::Sleep(100));
        assert_eq!(after_check.phase, Phase::Sleeping);
        let (after_wake, b) = after_check.step(true);
        assert_eq!(b, Action::Invoke);
        assert_eq!(after_wake.phase, Phase::Pending);
        assert_eq!(after_wake.kind, TaskKind::Repeating);
        assert_eq!(after_wake.period_ms, 100);
        runs += 1;
        s = after_wake;
    }
    assert_eq!(runs, 3);
    let (asleep, _) = s.step(true);
    let (over, a) = asleep.step(false);
    assert_eq!(a, Action::Exit);
    assert_eq!(over.phase, Phase::Cancelled);
    assert_eq!(over.step(true), (over, Action::Exit));
}

#[test]
fn interval_cancelled_between_cycles() {
    let (s1, _) = TaskState::repeating(5).step(true);
    let (s2, a2) = s1.step(true);
    assert_eq!(a2, Action::Invoke);
    let (s3, a3) = s2.step(false);
    assert_eq!(a3, Action::Exit);
    assert_eq!(s3.phase, Phase::Cancelled);
}

#[test]
fn zero_period_is_passed_on() {
    let (s1, a1) = TaskState::repeating(0).step(true);
    assert_eq!(a1, Action::Sleep(0));
    assert_eq!(s1.step(true).1, Action::Invoke);
    let (t1, b1) = TaskState::once(u64::MAX).step(true);
    assert_eq!(b1, Action::Sleep(u64::MAX));
    assert_eq!(t1.period_ms, u64::MAX);
}
