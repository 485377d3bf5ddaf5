use timer::task::{Action, Phase, TaskKind};
use timer::timer::{Timer, TimerTask};

/// Drives a task on a virtual clock that starts at 0 and moves only when the
/// task sleeps. The timer is stopped once the clock has reached `stop_at`;
/// the run ends when the task exits or the clock has passed `until`. Returns
/// the moments at which the work ran.
fn simulate(timer: &Timer, task: &mut TimerTask, stop_at: Option<u64>, until: u64) -> Vec<u64> {
    let mut now: u64 = 0;
    let mut runs = Vec::new();
    while now <= until {
        if stop_at.map_or(false, |s| now >= s) {
            timer.stop();
        }
        match task.advance() {
            Action::Sleep(ms) => now += ms,
            Action::Invoke => runs.push(now),
            Action::Exit => break,
        }
    }
    runs
}

#[test]
fn scheduled_tasks_start_pending() {
    let timer = Timer::new();
    let once = timer.set_timeout(200);
    assert_eq!(once.state().kind, TaskKind::Once);
    assert_eq!(once.state().period_ms, 200);
    assert_eq!(once.state().phase, Phase::Pending);
    let every = timer.set_interval(100);
    assert_eq!(every.state().kind, TaskKind::Repeating);
    assert_eq!(every.state().period_ms, 100);
    assert_eq!(every.state().phase, Phase::Pending);
}

#[test]
fn new_timer_is_active() {
    let timer = Timer::new();
    let mut task = timer.set_timeout(5);
    assert_eq!(task.advance(), Action::Sleep(5));
    assert_eq!(task.advance(), Action::Invoke);
    assert_eq!(task.state().phase, Phase::Completed);
    assert_eq!(task.advance(), Action::Exit);
    assert_eq!(task.state().phase, Phase::Completed);
}

#[test]
fn stop_reaches_every_task() {
    let timer = Timer::new();
    let mut once = timer.set_timeout(10);
    let mut every = timer.set_interval(10);
    assert_eq!(once.advance(), Action::Sleep(10));
    assert_eq!(every.advance(), Action::Sleep(10));
    assert_eq!(every.advance(), Action::Invoke);
    timer.stop();
    assert_eq!(once.advance(), Action::Exit);
    assert_eq!(once.state().phase, Phase::Cancelled);
    assert_eq!(every.advance(), Action::Exit);
    assert_eq!(every.state().phase, Phase::Cancelled);
}

#[test]
fn stop_twice_is_harmless() {
    let timer = Timer::new();
    timer.stop();
    timer.stop();
    let mut late = timer.set_interval(1);
    assert_eq!(late.advance(), Action::Exit);
    assert_eq!(late.state().phase, Phase::Cancelled);
    timer.stop();
    assert_eq!(late.advance(), Action::Exit);
}

#[test]
fn task_scheduled_after_stop_never_runs() {
    let timer = Timer::new();
    timer.stop();
    let mut once = timer.set_timeout(0);
    let mut every = timer.set_interval(0);
    assert_eq!(simulate(&timer, &mut once, None, 1000), Vec::<u64>::new());
    assert_eq!(simulate(&timer, &mut every, None, 1000), Vec::<u64>::new());
    assert_eq!(once.state().phase, Phase::Cancelled);
    assert_eq!(every.state().phase, Phase::Cancelled);
}

#[test]
fn timers_do_not_share_a_flag() {
    let first = Timer::new();
    let second = Timer::new();
    let mut a = first.set_timeout(1);
    let mut b = second.set_timeout(1);
    first.stop();
    assert_eq!(a.advance(), Action::Exit);
    assert_eq!(b.advance(), Action::Sleep(1));
    assert_eq!(b.advance(), Action::Invoke);
}

#[test]
fn dropping_the_timer_stops_its_tasks() {
    let timer = Timer::new();
    let mut every = timer.set_interval(3);
    assert_eq!(every.advance(), Action::Sleep(3));
    drop(timer);
    assert_eq!(every.advance(), Action::Exit);
    assert_eq!(every.state().phase, Phase::Cancelled);
}

#[test]
fn timeout_fires_once_on_a_virtual_clock() {
    let timer = Timer::new();
    let mut task = timer.set_timeout(200);
    assert_eq!(simulate(&timer, &mut task, None, 500), vec![200]);
    assert_eq!(task.state().phase, Phase::Completed);
}

#[test]
fn interval_counts_periods_on_a_virtual_clock() {
    let timer = Timer::new();
    let mut task = timer.set_interval(100);
    let runs = simulate(&timer, &mut task, Some(450), 750);
    assert_eq!(runs, vec![100, 200, 300, 400]);
    assert_eq!(runs.len() as u64, 450 / 100);
    assert_eq!(task.state().phase, Phase::Cancelled);
    assert_eq!(simulate(&timer, &mut task, None, 300), Vec::<u64>::new());
}

#[test]
fn timeout_stopped_early_on_a_virtual_clock() {
    let timer = Timer::new();
    let mut task = timer.set_timeout(1000);
    assert_eq!(simulate(&timer, &mut task, Some(100), 1200), Vec::<u64>::new());
    assert_eq!(task.state().phase, Phase::Cancelled);
}

#[test]
fn timeout_stopped_while_asleep() {
    let timer = Timer::new();
    let mut task = timer.set_timeout(1000);
    assert_eq!(task.advance(), Action::Sleep(1000));
    assert_eq!(task.state().phase, Phase::Sleeping);
    timer.stop();
    assert_eq!(task.advance(), Action::Exit);
    assert_eq!(task.state().phase, Phase::Cancelled);
}

#[test]
fn interval_of_zero_runs_without_pause() {
    let timer = Timer::new();
    let mut task = timer.set_interval(0);
    for _ in 0..10 {
        assert_eq!(task.advance(), Action::Sleep(0));
        assert_eq!(task.advance(), Action::Invoke);
    }
    timer.stop();
    assert_eq!(task.advance(), Action::Exit);
}
