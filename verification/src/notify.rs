//! What a command hands back for publishing: a named event with a full
//! snapshot of the state it concerns.

use vstd::prelude::*;
use crate::tasks::{TaskView, TasksState};
use crate::timer::TimerState;

verus! {

/// Name of the event that carries a timer snapshot.
pub const TIMER_UPDATE: &'static str = "timer-update";

/// Name of the event that carries a checklist snapshot.
pub const TASKS_UPDATE: &'static str = "tasks-update";

/// A snapshot to broadcast. It is taken while the state is held, so it is
/// consistent whatever happens to the state before it is delivered.
#[derive(Debug, PartialEq, Eq)]
pub enum Notification {
    /// The timer as it stood after the change.
    Timer(TimerState),
    /// The checklist as it stood after the change.
    Tasks(TasksState),
}

/// A notification as contracts see it.
pub enum NotificationView {
    Timer(TimerState),
    Tasks(Seq<TaskView>),
}

impl View for Notification {
    type V = NotificationView;

    open spec fn view(&self) -> NotificationView {
        match self {
            Notification::Timer(state) => NotificationView::Timer(*state),
            Notification::Tasks(state) => NotificationView::Tasks(state@),
        }
    }
}

impl NotificationView {
    /// The event under which the snapshot is published.
    pub open spec fn event_name(self) -> Seq<char> {
        match self {
            NotificationView::Timer(_) => TIMER_UPDATE@,
            NotificationView::Tasks(_) => TASKS_UPDATE@,
        }
    }
}

impl Notification {
    /// The event under which the snapshot is published: `timer-update` for
    /// a timer snapshot, `tasks-update` for a checklist snapshot.
    pub fn event_name(&self) -> (name: &'static str)
        ensures
            name@ == self@.event_name(),
    {
        match self {
            Notification::Timer(_) => TIMER_UPDATE,
            Notification::Tasks(_) => TASKS_UPDATE,
        }
    }
}

} // verus!
