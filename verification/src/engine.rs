//! The timer engine: the countdown state together with the epoch that says
//! which background loop may drive it.
//!
//! Every `start` opens a new epoch and hands it to the loop it asks the
//! caller to spawn. A loop presents its epoch on every tick; a loop whose
//! epoch is no longer the current one is retired without touching the timer.
//! Since epochs only grow, at most one loop is ever current.

use vstd::prelude::*;
use crate::timer::{TickOutcome, TimerState};

verus! {

/// Why the engine refused a command.
#[derive(Clone, Copy, Debug, PartialEq, Eq, Structural)]
pub enum EngineError {
    /// Every epoch has been handed out; no further loop can be told apart
    /// from an earlier one.
    EpochExhausted,
}

impl EngineError {
    /// The text of the error, as a caller reports it.
    pub open spec fn spec_message(self) -> Seq<char> {
        match self {
            EngineError::EpochExhausted => "timer cannot be started again: no epoch is left"@,
        }
    }

    /// The text of the error, as a caller reports it.
    pub fn message(&self) -> (text: String)
        ensures
            text@ == self.spec_message(),
    {
        match self {
            EngineError::EpochExhausted => String::from_str(
                "timer cannot be started again: no epoch is left",
            ),
        }
    }
}

/// One thing that can happen to the engine: a command, or a tick presented
/// by the loop of some epoch.
pub enum EngineStep {
    Start,
    TogglePause,
    Stop,
    Tick { loop_epoch: nat },
}

/// The countdown state and the current epoch.
#[derive(Clone, Copy, Debug)]
pub struct TimerEngine {
    state: TimerState,
    epoch: u64,
}

/// The engine as contracts see it.
pub struct EngineView {
    pub state: TimerState,
    pub epoch: nat,
}

impl View for TimerEngine {
    type V = EngineView;

    closed spec fn view(&self) -> EngineView {
        EngineView { state: self.state, epoch: self.epoch as nat }
    }
}

impl EngineView {
    /// The engine after `start`: the timer started, the next epoch opened.
    pub open spec fn started(self) -> EngineView {
        EngineView { state: self.state.started(), epoch: self.epoch + 1 }
    }

    /// The engine after the pause toggle: same epoch; the timer toggled
    /// between running and paused, or left alone when idle.
    pub open spec fn pause_toggled(self) -> EngineView {
        EngineView { state: self.state.pause_toggled(), ..self }
    }

    /// The engine after `stop`: same epoch.
    pub open spec fn stopped(self) -> EngineView {
        EngineView { state: self.state.stopped(), ..self }
    }

    /// The engine after a tick presented by the loop of `loop_epoch`: the
    /// current loop advances the timer, any other leaves it alone.
    pub open spec fn ticked(self, loop_epoch: nat) -> EngineView {
        if loop_epoch == self.epoch {
            EngineView { state: self.state.ticked(), ..self }
        } else {
            self
        }
    }

    /// What that tick reports: a loop that is not current is retired.
    pub open spec fn tick_outcome(self, loop_epoch: nat) -> TickOutcome {
        if loop_epoch == self.epoch {
            self.state.tick_outcome()
        } else {
            TickOutcome::Retired
        }
    }

    /// The engine after a call of `start`, which succeeds while an epoch is
    /// left and otherwise changes nothing.
    pub open spec fn start_attempted(self) -> EngineView {
        if self.epoch < u64::MAX {
            self.started()
        } else {
            self
        }
    }

    /// The engine after one step.
    pub open spec fn stepped(self, step: EngineStep) -> EngineView {
        match step {
            EngineStep::Start => self.start_attempted(),
            EngineStep::TogglePause => self.pause_toggled(),
            EngineStep::Stop => self.stopped(),
            EngineStep::Tick { loop_epoch } => self.ticked(loop_epoch),
        }
    }

    /// The engine after a sequence of steps, in order.
    pub open spec fn run(self, steps: Seq<EngineStep>) -> EngineView
        decreases steps.len(),
    {
        if steps.len() == 0 {
            self
        } else {
            self.run(steps.drop_last()).stepped(steps.last())
        }
    }
}

impl TimerEngine {
    /// An engine with the given countdown state, in the given epoch.
    pub fn from_parts(state: TimerState, epoch: u64) -> (engine: TimerEngine)
        ensures
            engine@ == (EngineView { state, epoch: epoch as nat }),
    {
        TimerEngine { state, epoch }
    }

    /// The engine a process starts with: the initial timer, epoch zero.
    pub fn new() -> (engine: TimerEngine)
        ensures
            engine@ == (EngineView { state: TimerState::initial(), epoch: 0 }),
    {
        TimerEngine::from_parts(TimerState::new(), 0)
    }

    /// A copy of the countdown state.
    pub fn state(&self) -> (state: TimerState)
        ensures
            state == self@.state,
    {
        self.state
    }

    /// The current epoch.
    pub fn epoch(&self) -> (epoch: u64)
        ensures
            epoch == self@.epoch,
    {
        self.epoch
    }

    /// Begins or resumes the countdown and opens the next epoch, which is
    /// returned for the loop that the caller now spawns. Any loop spawned
    /// earlier is thereby superseded. Fails, changing nothing, only when the
    /// epoch counter is at its largest value.
    pub fn start(&mut self) -> (opened: Result<u64, EngineError>)
        ensures
            final(self)@ == old(self)@.start_attempted(),
            match opened {
                Ok(epoch) => {
                    &&& old(self)@.epoch < u64::MAX
                    &&& epoch == old(self)@.epoch + 1
                    &&& final(self)@ == old(self)@.started()
                },
                Err(e) => {
                    &&& old(self)@.epoch == u64::MAX
                    &&& e == EngineError::EpochExhausted
                    &&& final(self)@ == old(self)@
                },
            },
    {
        match self.epoch.checked_add(1) {
            Some(next) => {
                self.epoch = next;
                self.state.start();
                Ok(next)
            },
            None => Err(EngineError::EpochExhausted),
        }
    }

    /// Toggles the timer between running and paused and leaves an idle
    /// timer alone; the epoch and the loop are not affected.
    pub fn toggle_pause(&mut self)
        ensures
            final(self)@ == old(self)@.pause_toggled(),
    {
        self.state.toggle_pause();
    }

    /// Resets the timer to idle with a full work session. The epoch is kept:
    /// the current loop finds the timer idle on its next tick and retires.
    pub fn stop(&mut self)
        ensures
            final(self)@ == old(self)@.stopped(),
    {
        self.state.stop();
    }

    /// One tick, presented by the loop that was given `loop_epoch`. The
    /// current loop advances the timer; a superseded loop is retired and the
    /// timer is left as it was.
    pub fn tick(&mut self, loop_epoch: u64) -> (outcome: TickOutcome)
        ensures
            outcome == old(self)@.tick_outcome(loop_epoch as nat),
            final(self)@ == old(self)@.ticked(loop_epoch as nat),
    {
        if loop_epoch != self.epoch {
            return TickOutcome::Retired;
        }
        self.state.tick()
    }
}

} // verus!
