use pomodoro::engine::{EngineError, TimerEngine};
use pomodoro::timer::{TickOutcome, TimerState};

fn state(time_left: u32, is_active: bool, is_paused: bool, is_break: bool) -> TimerState {
    TimerState { time_left, is_active, is_paused, is_break }
}

#[test]
fn new_engine_is_idle_in_epoch_zero() {
    let engine = TimerEngine::new();
    assert_eq!(engine.state(), state(1500, false, false, false));
    assert_eq!(engine.epoch(), 0);
}

#[test]
fn from_parts_keeps_both_parts() {
    let engine = TimerEngine::from_parts(state(3, true, false, true), 9);
    assert_eq!(engine.state(), state(3, true, false, true));
    assert_eq!(engine.epoch(), 9);
}

#[test]
fn start_opens_the_next_epoch_and_runs() {
    let mut engine = TimerEngine::new();
    assert_eq!(engine.start(), Ok(1));
    assert_eq!(engine.epoch(), 1);
    assert_eq!(engine.state(), state(1500, true, false, false));
    assert_eq!(engine.start(), Ok(2));
    assert_eq!(engine.epoch(), 2);
}

#[test]
fn start_fails_and_changes_nothing_when_epochs_run_out() {
    let mut engine = TimerEngine::from_parts(state(20, false, true, true), u64::MAX);
    assert_eq!(engine.start(), Err(EngineError::EpochExhausted));
    assert_eq!(engine.epoch(), u64::MAX);
    assert_eq!(engine.state(), state(20, false, true, true));
}

#[test]
fn start_succeeds_just_below_the_last_epoch() {
    let mut engine = TimerEngine::from_parts(TimerState::new(), u64::MAX - 1);
    assert_eq!(engine.start(), Ok(u64::MAX));
    assert_eq!(engine.epoch(), u64::MAX);
}

#[test]
fn current_loop_counts_down() {
    let mut engine = TimerEngine::from_parts(state(3, false, false, false), 0);
    let epoch = engine.start().unwrap();
    assert_eq!(
        engine.tick(epoch),
        TickOutcome::Counted { snapshot: state(2, true, false, false) }
    );
    assert_eq!(engine.state().time_left, 2);
}

#[test]
fn superseded_loop_is_retired_without_touching_the_timer() {
    let mut engine = TimerEngine::new();
    let first = engine.start().unwrap();
    assert!(engine.tick(first).keeps_ticking());
    let second = engine.start().unwrap();
    let before = engine.state();

    assert_eq!(engine.tick(first), TickOutcome::Retired);
    assert_eq!(engine.state(), before);

    assert!(matches!(engine.tick(second), TickOutcome::Counted { .. }));
    assert_eq!(engine.state().time_left, before.time_left - 1);
}

#[test]
fn restart_within_a_second_of_stop_leaves_one_driving_loop() {
    let mut engine = TimerEngine::new();
    let first = engine.start().unwrap();
    engine.tick(first);
    engine.stop();
    let second = engine.start().unwrap();

    let mut driving = 0;
    for epoch in [first, second] {
        if engine.tick(epoch).keeps_ticking() {
            driving += 1;
        }
    }
    assert_eq!(driving, 1);
    assert_eq!(engine.state().time_left, 1499);
}

#[test]
fn pause_and_stop_keep_the_epoch() {
    let mut engine = TimerEngine::new();
    let epoch = engine.start().unwrap();
    engine.toggle_pause();
    assert_eq!(engine.epoch(), epoch);
    assert_eq!(engine.state(), state(1500, true, true, false));
    assert_eq!(engine.tick(epoch), TickOutcome::Skipped);
    engine.stop();
    assert_eq!(engine.epoch(), epoch);
    assert_eq!(engine.state(), state(1500, false, false, false));
    assert_eq!(engine.tick(epoch), TickOutcome::Retired);
}

#[test]
fn loop_with_a_future_epoch_is_retired_too() {
    let mut engine = TimerEngine::from_parts(state(10, true, false, false), 4);
    assert_eq!(engine.tick(5), TickOutcome::Retired);
    assert_eq!(engine.state(), state(10, true, false, false));
}

#[test]
fn epoch_exhausted_has_a_message() {
    assert_eq!(
        EngineError::EpochExhausted.message(),
        "timer cannot be started again: no epoch is left"
    );
}

#[test]
fn epoch_never_goes_back_over_a_mixed_run() {
    let mut engine = TimerEngine::new();
    let mut last = engine.epoch();
    let mut issued = Vec::new();
    for step in 0..200u32 {
        match step % 5 {
            0 => issued.push(engine.start().unwrap()),
            1 => engine.toggle_pause(),
            2 => engine.stop(),
            _ => {
                for epoch in issued.clone() {
                    let outcome = engine.tick(epoch);
                    if epoch != engine.epoch() {
                        assert_eq!(outcome, TickOutcome::Retired);
                    }
                }
            }
        }
        assert!(engine.epoch() >= last);
        last = engine.epoch();
    }
    assert_eq!(engine.epoch(), 40);
}

#[test]
fn pause_toggle_on_an_idle_engine_changes_nothing() {
    let mut engine = TimerEngine::new();
    engine.toggle_pause();
    assert_eq!(engine.state(), state(1500, false, false, false));
    assert_eq!(engine.epoch(), 0);
}
