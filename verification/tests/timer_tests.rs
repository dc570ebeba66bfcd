use pomodoro::timer::{TickOutcome, TimerMode, TimerState, BREAK_SECONDS, WORK_SECONDS};

fn state(time_left: u32, is_active: bool, is_paused: bool, is_break: bool) -> TimerState {
    TimerState { time_left, is_active, is_paused, is_break }
}

#[test]
fn phase_durations() {
    assert_eq!(WORK_SECONDS, 1500);
    assert_eq!(BREAK_SECONDS, 300);
}

#[test]
fn new_timer_is_idle_with_full_work_session() {
    let t = TimerState::new();
    assert_eq!(t, state(1500, false, false, false));
    assert_eq!(t.mode(), TimerMode::Idle);
}

#[test]
fn mode_tells_the_three_states_apart() {
    assert_eq!(state(10, false, false, false).mode(), TimerMode::Idle);
    assert_eq!(state(10, false, true, false).mode(), TimerMode::Idle);
    assert_eq!(state(10, true, false, true).mode(), TimerMode::Running);
    assert_eq!(state(10, true, true, false).mode(), TimerMode::Paused);
}

#[test]
fn start_from_idle_runs_and_keeps_time_and_phase() {
    let mut t = state(42, false, false, true);
    t.start();
    assert_eq!(t, state(42, true, false, true));
    assert_eq!(t.mode(), TimerMode::Running);
}

#[test]
fn start_from_paused_resumes() {
    let mut t = state(42, true, true, false);
    t.start();
    assert_eq!(t, state(42, true, false, false));
}

#[test]
fn pause_toggle_flips_only_the_pause_flag() {
    let mut t = state(100, true, false, false);
    t.toggle_pause();
    assert_eq!(t, state(100, true, true, false));
    assert_eq!(t.mode(), TimerMode::Paused);
    t.toggle_pause();
    assert_eq!(t, state(100, true, false, false));
    assert_eq!(t.mode(), TimerMode::Running);
}

#[test]
fn pause_toggle_on_idle_timer_stays_idle() {
    let mut t = TimerState::new();
    t.toggle_pause();
    assert_eq!(t, state(1500, false, false, false));
    assert_eq!(t.mode(), TimerMode::Idle);
    t.toggle_pause();
    assert_eq!(t, state(1500, false, false, false));
}

#[test]
fn pause_toggle_leaves_every_idle_timer_as_it_is() {
    for time_left in [0u32, 1, 300, 1500] {
        for bits in 0u8..4 {
            let before = state(time_left, false, bits & 1 != 0, bits & 2 != 0);
            let mut t = before;
            t.toggle_pause();
            assert_eq!(t, before);
        }
    }
}

#[test]
fn pause_toggle_after_completion_or_stop_stays_idle() {
    let mut t = state(1, true, false, false);
    t.tick();
    t.toggle_pause();
    assert_eq!(t, state(300, false, false, true));

    let mut stopped = state(40, true, true, false);
    stopped.stop();
    stopped.toggle_pause();
    assert_eq!(stopped, state(1500, false, false, false));
}

#[test]
fn pause_flag_is_set_only_with_a_session_in_progress() {
    let mut t = TimerState::new();
    for step in 0..5000u32 {
        match step % 11 {
            0 | 4 | 9 => t.toggle_pause(),
            2 if step % 3 == 0 => t.start(),
            7 if step % 5 == 0 => t.stop(),
            _ => {
                t.tick();
            }
        }
        assert!(!t.is_paused || t.is_active);
    }
}

#[test]
fn stop_resets_from_every_combination_of_flags() {
    for time_left in [0u32, 1, 299, 1500, 4000] {
        for bits in 0u8..8 {
            let is_active = bits & 1 != 0;
            let is_paused = bits & 2 != 0;
            let is_break = bits & 4 != 0;
            let mut t = state(time_left, is_active, is_paused, is_break);
            t.stop();
            assert_eq!(t, state(1500, false, false, is_break));
        }
    }
}

#[test]
fn three_ticks_from_three_seconds_complete_the_work_session() {
    let mut t = state(3, true, false, false);

    let first = t.tick();
    assert_eq!(first, TickOutcome::Counted { snapshot: state(2, true, false, false) });
    assert_eq!(t, state(2, true, false, false));

    let second = t.tick();
    assert_eq!(second, TickOutcome::Counted { snapshot: state(1, true, false, false) });
    assert_eq!(t, state(1, true, false, false));

    let third = t.tick();
    assert_eq!(
        third,
        TickOutcome::Completed {
            last_second: state(0, true, false, false),
            completed: state(300, false, false, true),
        }
    );
    assert_eq!(t.time_left, 300);
    assert!(!t.is_active);
    assert!(t.is_break);
    assert!(!t.is_paused);
}

#[test]
fn loop_runs_once_more_after_completion_and_then_retires() {
    let mut t = state(1, true, false, false);
    let done = t.tick();
    assert!(done.keeps_ticking());
    let after = t.tick();
    assert_eq!(after, TickOutcome::Retired);
    assert!(!after.keeps_ticking());
    assert_eq!(t, state(300, false, false, true));
}

#[test]
fn completing_a_break_loads_a_work_session() {
    let mut t = state(1, true, false, true);
    let outcome = t.tick();
    assert_eq!(
        outcome,
        TickOutcome::Completed {
            last_second: state(0, true, false, true),
            completed: state(1500, false, false, false),
        }
    );
    assert_eq!(t, state(1500, false, false, false));
}

#[test]
fn a_full_work_session_takes_1500_ticks() {
    let mut t = TimerState::new();
    t.start();
    for expected in (1..1500u32).rev() {
        assert!(matches!(t.tick(), TickOutcome::Counted { .. }));
        assert_eq!(t.time_left, expected);
        assert!(t.is_active);
    }
    assert!(matches!(t.tick(), TickOutcome::Completed { .. }));
    assert_eq!(t, state(300, false, false, true));
}

#[test]
fn paused_timer_does_not_count_and_resumes_from_same_time() {
    let mut t = state(10, true, false, false);
    assert!(matches!(t.tick(), TickOutcome::Counted { .. }));
    assert_eq!(t.time_left, 9);

    t.toggle_pause();
    assert!(t.is_active);
    for _ in 0..5 {
        let outcome = t.tick();
        assert_eq!(outcome, TickOutcome::Skipped);
        assert!(outcome.keeps_ticking());
        assert_eq!(t, state(9, true, true, false));
    }

    t.toggle_pause();
    assert_eq!(t, state(9, true, false, false));
    assert_eq!(t.tick(), TickOutcome::Counted { snapshot: state(8, true, false, false) });
    assert_eq!(t.time_left, 8);
}

#[test]
fn idle_timer_retires_the_loop_unchanged() {
    let mut t = state(77, false, false, true);
    assert_eq!(t.tick(), TickOutcome::Retired);
    assert_eq!(t, state(77, false, false, true));

    let mut paused_idle = state(77, false, true, false);
    assert_eq!(paused_idle.tick(), TickOutcome::Retired);
    assert_eq!(paused_idle, state(77, false, true, false));
}

#[test]
fn running_timer_without_time_retires_the_loop_unchanged() {
    let mut t = state(0, true, false, false);
    assert_eq!(t.tick(), TickOutcome::Retired);
    assert_eq!(t, state(0, true, false, false));
}

#[test]
fn stop_while_running_makes_the_next_tick_retire() {
    let mut t = state(500, true, false, true);
    t.stop();
    assert_eq!(t, state(1500, false, false, true));
    assert_eq!(t.tick(), TickOutcome::Retired);
    assert_eq!(t, state(1500, false, false, true));
}

#[test]
fn snapshots_are_listed_in_publishing_order() {
    assert_eq!(TickOutcome::Retired.snapshots(), Vec::<TimerState>::new());
    assert_eq!(TickOutcome::Skipped.snapshots(), Vec::<TimerState>::new());
    let counted = TickOutcome::Counted { snapshot: state(5, true, false, false) };
    assert_eq!(counted.snapshots(), vec![state(5, true, false, false)]);
    let completed = TickOutcome::Completed {
        last_second: state(0, true, false, false),
        completed: state(300, false, false, true),
    };
    assert_eq!(
        completed.snapshots(),
        vec![state(0, true, false, false), state(300, false, false, true)]
    );
}

#[test]
fn only_retired_ends_the_loop() {
    assert!(!TickOutcome::Retired.keeps_ticking());
    assert!(TickOutcome::Skipped.keeps_ticking());
    assert!(TickOutcome::Counted { snapshot: state(5, true, false, false) }.keeps_ticking());
    assert!(TickOutcome::Completed {
        last_second: state(0, true, false, false),
        completed: state(300, false, false, true),
    }
    .keeps_ticking());
}

#[test]
fn time_left_stays_between_one_and_a_work_session() {
    let mut t = TimerState::new();
    for step in 0..5000u32 {
        match step % 7 {
            0 => t.start(),
            3 => t.toggle_pause(),
            5 if step % 35 == 5 => t.stop(),
            _ => {
                t.tick();
            }
        }
        assert!(t.time_left >= 1 && t.time_left <= 1500);
    }
}
