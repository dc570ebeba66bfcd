//! The countdown state machine: one value of four fields, and the
//! transitions `start`, `toggle_pause`, `stop` and `tick` on it.

use vstd::prelude::*;

verus! {

/// Length of a work session, in seconds.
pub const WORK_SECONDS: u32 = 1500;

/// Length of a break, in seconds.
pub const BREAK_SECONDS: u32 = 300;

/// The three states the timer can be in.
#[derive(Clone, Copy, Debug, PartialEq, Eq, Structural)]
pub enum TimerMode {
    /// No session is in progress.
    Idle,
    /// A session is in progress and counting down.
    Running,
    /// A session is in progress but the countdown is suspended.
    Paused,
}

/// The timer as it is published: replaced and broadcast whole on every change.
#[derive(Clone, Copy, Debug, PartialEq, Eq, Structural)]
pub struct TimerState {
    /// Seconds remaining in the current phase.
    pub time_left: u32,
    /// Whether a session is in progress.
    pub is_active: bool,
    /// Whether the countdown is suspended while the session stays in
    /// progress.
    pub is_paused: bool,
    /// Whether the current phase is a break rather than a work session.
    pub is_break: bool,
}

/// Duration of a phase: a break lasts `BREAK_SECONDS`, a work session
/// `WORK_SECONDS`.
pub open spec fn phase_seconds(is_break: bool) -> u32 {
    if is_break {
        BREAK_SECONDS
    } else {
        WORK_SECONDS
    }
}

/// What one tick of the background loop did to the timer.
#[derive(Clone, Copy, Debug, PartialEq, Eq, Structural)]
pub enum TickOutcome {
    /// The timer is not counting and the loop has nothing left to drive:
    /// nothing changed, nothing is published, the loop ends.
    Retired,
    /// The timer is paused: nothing changed, nothing is published, the loop
    /// goes on.
    Skipped,
    /// One second was counted and time remains. `snapshot` is published.
    Counted { snapshot: TimerState },
    /// The last second was counted and the phase flipped. `last_second`
    /// (with `time_left == 0`) is published first, then `completed`.
    Completed { last_second: TimerState, completed: TimerState },
}

impl TimerState {
    /// The state a process starts with: a full work session, idle.
    pub open spec fn initial() -> TimerState {
        TimerState { time_left: WORK_SECONDS, is_active: false, is_paused: false, is_break: false }
    }

    /// Which of the three states this value is in.
    pub open spec fn spec_mode(self) -> TimerMode {
        if !self.is_active {
            TimerMode::Idle
        } else if self.is_paused {
            TimerMode::Paused
        } else {
            TimerMode::Running
        }
    }

    /// The state after `start`.
    pub open spec fn started(self) -> TimerState {
        TimerState { is_active: true, is_paused: false, ..self }
    }

    /// The state after the pause toggle: with a session in progress the
    /// pause flag is flipped; an idle timer has no countdown to suspend and
    /// is left as it is.
    pub open spec fn pause_toggled(self) -> TimerState {
        if self.is_active {
            TimerState { is_paused: !self.is_paused, ..self }
        } else {
            self
        }
    }

    /// Whether the pause flag is set only with a session in progress.
    pub open spec fn paused_only_in_session(self) -> bool {
        self.is_paused ==> self.is_active
    }

    /// The state after `stop`.
    pub open spec fn stopped(self) -> TimerState {
        TimerState { time_left: WORK_SECONDS, is_active: false, is_paused: false, ..self }
    }

    /// The state with one second taken off. Meaningful while `time_left > 0`.
    pub open spec fn counted_down(self) -> TimerState
        recommends
            self.time_left > 0,
    {
        TimerState { time_left: (self.time_left - 1) as u32, ..self }
    }

    /// The state after a phase has run out: idle, in the other phase, with
    /// that phase's full duration.
    pub open spec fn phase_flipped(self) -> TimerState {
        TimerState {
            time_left: phase_seconds(!self.is_break),
            is_active: false,
            is_break: !self.is_break,
            ..self
        }
    }

    /// What a tick reports for this state.
    pub open spec fn tick_outcome(self) -> TickOutcome {
        if !self.is_active {
            TickOutcome::Retired
        } else if self.is_paused {
            TickOutcome::Skipped
        } else if self.time_left == 0 {
            TickOutcome::Retired
        } else if self.time_left == 1 {
            TickOutcome::Completed {
                last_second: self.counted_down(),
                completed: self.counted_down().phase_flipped(),
            }
        } else {
            TickOutcome::Counted { snapshot: self.counted_down() }
        }
    }

    /// The state after a tick.
    pub open spec fn ticked(self) -> TimerState {
        match self.tick_outcome() {
            TickOutcome::Retired => self,
            TickOutcome::Skipped => self,
            TickOutcome::Counted { snapshot } => snapshot,
            TickOutcome::Completed { completed, .. } => completed,
        }
    }

    /// Builds the state a process starts with.
    pub fn new() -> (state: TimerState)
        ensures
            state == TimerState::initial(),
    {
        TimerState { time_left: WORK_SECONDS, is_active: false, is_paused: false, is_break: false }
    }

    /// Tells idle, running and paused apart.
    pub fn mode(&self) -> (mode: TimerMode)
        ensures
            mode == self.spec_mode(),
    {
        if !self.is_active {
            TimerMode::Idle
        } else if self.is_paused {
            TimerMode::Paused
        } else {
            TimerMode::Running
        }
    }

    /// Begins or resumes the countdown: the session is in progress and not
    /// paused; the time left and the phase are kept.
    pub fn start(&mut self)
        ensures
            *final(self) == old(self).started(),
            final(self).spec_mode() == TimerMode::Running,
    {
        self.is_active = true;
        self.is_paused = false;
    }

    /// Toggles between running and paused: with a session in progress the
    /// pause flag is flipped and nothing else changes. An idle timer is left
    /// exactly as it is, since pausing means suspending a session that stays
    /// in progress, and an idle timer has none.
    pub fn toggle_pause(&mut self)
        ensures
            *final(self) == old(self).pause_toggled(),
            old(self).spec_mode() == TimerMode::Running ==> final(self).spec_mode()
                == TimerMode::Paused,
            old(self).spec_mode() == TimerMode::Paused ==> final(self).spec_mode()
                == TimerMode::Running,
            old(self).spec_mode() == TimerMode::Idle ==> *final(self) == *old(self),
    {
        if self.is_active {
            self.is_paused = !self.is_paused;
        }
    }

    /// Resets to an idle, unpaused timer with a full work session; the phase
    /// flag is kept.
    pub fn stop(&mut self)
        ensures
            *final(self) == old(self).stopped(),
            final(self).time_left == 1500,
            !final(self).is_active,
            !final(self).is_paused,
            final(self).is_break == old(self).is_break,
    {
        self.is_active = false;
        self.is_paused = false;
        self.time_left = WORK_SECONDS;
    }

    /// One tick of the background loop. A running timer with time left loses
    /// one second; when that was the last one, the phase flips, the new
    /// phase's duration is loaded and the timer goes idle. A paused timer is
    /// left alone. An idle timer, or a running one with no time left, is left
    /// alone and the loop is told to end.
    pub fn tick(&mut self) -> (outcome: TickOutcome)
        ensures
            outcome == old(self).tick_outcome(),
            *final(self) == old(self).ticked(),
    {
        if !self.is_active {
            return TickOutcome::Retired;
        }
        if self.is_paused {
            return TickOutcome::Skipped;
        }
        if self.time_left == 0 {
            return TickOutcome::Retired;
        }
        self.time_left = self.time_left - 1;
        let counted = *self;
        if self.time_left == 0 {
            self.is_active = false;
            self.is_break = !self.is_break;
            self.time_left = if self.is_break {
                BREAK_SECONDS
            } else {
                WORK_SECONDS
            };
            TickOutcome::Completed { last_second: counted, completed: *self }
        } else {
            TickOutcome::Counted { snapshot: counted }
        }
    }
}

impl TickOutcome {
    /// Whether the loop goes on after this tick.
    pub open spec fn spec_keeps_ticking(self) -> bool {
        !(self is Retired)
    }

    /// The snapshots this tick publishes, in publishing order.
    pub open spec fn spec_snapshots(self) -> Seq<TimerState> {
        match self {
            TickOutcome::Retired => seq![],
            TickOutcome::Skipped => seq![],
            TickOutcome::Counted { snapshot } => seq![snapshot],
            TickOutcome::Completed { last_second, completed } => seq![last_second, completed],
        }
    }

    /// The snapshots to publish under `timer-update`, in order: none when
    /// nothing changed, the counted second, and after it the completed
    /// phase when the second was the last one.
    pub fn snapshots(&self) -> (list: Vec<TimerState>)
        ensures
            list@ == self.spec_snapshots(),
    {
        let mut list: Vec<TimerState> = Vec::new();
        match self {
            TickOutcome::Retired => {},
            TickOutcome::Skipped => {},
            TickOutcome::Counted { snapshot } => {
                list.push(*snapshot);
            },
            TickOutcome::Completed { last_second, completed } => {
                list.push(*last_second);
                list.push(*completed);
            },
        }
        assert(list@ =~= self.spec_snapshots());
        list
    }

    /// Whether the loop goes on after this tick: it ends only when retired.
    /// After a completed phase it runs once more and retires on the idle
    /// timer it then finds.
    pub fn keeps_ticking(&self) -> (go_on: bool)
        ensures
            go_on == self.spec_keeps_ticking(),
    {
        match self {
            TickOutcome::Retired => false,
            _ => true,
        }
    }
}

} // verus!
