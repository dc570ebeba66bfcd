//! The shared state: the one timer engine and the one checklist that every
//! command and the background loop work on. The caller keeps it behind its
//! lock; this module only says what it holds and what it starts as.

use vstd::prelude::*;
use crate::engine::{EngineView, TimerEngine};
use crate::tasks::{seed_tasks, TaskView, TasksState};
use crate::timer::TimerState;

verus! {

/// The timer engine and the checklist, owned together.
#[derive(Debug)]
pub struct Store {
    /// The timer and its epoch.
    pub timer: TimerEngine,
    /// The checklist.
    pub tasks: TasksState,
}

/// The store as contracts see it.
pub struct StoreModel {
    pub timer: EngineView,
    pub tasks: Seq<TaskView>,
}

impl View for Store {
    type V = StoreModel;

    open spec fn view(&self) -> StoreModel {
        StoreModel { timer: self.timer@, tasks: self.tasks@ }
    }
}

impl StoreModel {
    /// The store a process starts with.
    pub open spec fn initial() -> StoreModel {
        StoreModel {
            timer: EngineView { state: TimerState::initial(), epoch: 0 },
            tasks: seed_tasks(),
        }
    }
}

impl Store {
    /// The store a process starts with: an idle timer with a full work
    /// session, and the two example tasks.
    pub fn new() -> (store: Store)
        ensures
            store@ == StoreModel::initial(),
            store.tasks.spec_total_tasks() == 2,
            store.tasks.spec_completed_tasks() == 0,
    {
        Store { timer: TimerEngine::new(), tasks: TasksState::seeded() }
    }
}

} // verus!
