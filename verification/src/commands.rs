//! The command surface. Each command is one short transaction on the store:
//! it makes a single change or read and hands back what is to be published
//! or returned. The caller holds the lock around the call and publishes
//! afterwards.

use vstd::prelude::*;
use crate::engine::EngineError;
use crate::notify::{Notification, NotificationView};
use crate::store::{Store, StoreModel};
use crate::tasks::{count_completed, has_id, removed, toggled, TasksState};
use crate::timer::{TickOutcome, TimerState};

verus! {

/// What `timer_start` hands back: the snapshot to publish and the epoch of
/// the background loop to spawn.
#[derive(Debug)]
pub struct Started {
    /// The timer snapshot to publish.
    pub notification: Notification,
    /// The epoch the new loop presents on every tick.
    pub epoch: u64,
}

/// The greeting for a name.
pub open spec fn greeting(name: Seq<char>) -> Seq<char> {
    "Hello, "@ + name + "! You've been greeted from Rust!"@
}

/// Greets by name.
pub fn greet(name: &str) -> (text: String)
    ensures
        text@ == greeting(name@),
{
    let mut text = String::from_str("Hello, ");
    text.append(name);
    text.append("! You've been greeted from Rust!");
    text
}

/// Begins or resumes the countdown. The timer becomes active and unpaused,
/// a new epoch is opened for the loop to spawn, and the timer snapshot is
/// to be published under `timer-update`. The checklist is not touched.
/// Fails, changing nothing, only when the epoch counter is exhausted.
pub fn timer_start(store: &mut Store) -> (started: Result<Started, EngineError>)
    ensures
        match started {
            Ok(s) => {
                &&& old(store)@.timer.epoch < u64::MAX
                &&& s.epoch == old(store)@.timer.epoch + 1
                &&& s.notification@ == NotificationView::Timer(old(store)@.timer.state.started())
                &&& final(store)@ == (StoreModel {
                    timer: old(store)@.timer.started(),
                    ..old(store)@
                })
            },
            Err(e) => {
                &&& old(store)@.timer.epoch == u64::MAX
                &&& e == EngineError::EpochExhausted
                &&& final(store)@ == old(store)@
            },
        },
{
    match store.timer.start() {
        Ok(epoch) => Ok(Started { notification: Notification::Timer(store.timer.state()), epoch }),
        Err(e) => Err(e),
    }
}

/// Toggles the timer between running and paused and hands back the timer
/// snapshot to publish under `timer-update`. An idle timer is left as it is,
/// and its unchanged snapshot is handed back all the same. Nothing else
/// changes.
pub fn timer_pause(store: &mut Store) -> (notification: Notification)
    ensures
        notification@ == NotificationView::Timer(old(store)@.timer.state.pause_toggled()),
        final(store)@ == (StoreModel { timer: old(store)@.timer.pause_toggled(), ..old(store)@ }),
{
    store.timer.toggle_pause();
    Notification::Timer(store.timer.state())
}

/// Resets the timer to idle with a full work session, keeping the phase,
/// and hands back the timer snapshot to publish under `timer-update`.
pub fn timer_stop(store: &mut Store) -> (notification: Notification)
    ensures
        notification@ == NotificationView::Timer(old(store)@.timer.state.stopped()),
        final(store)@ == (StoreModel { timer: old(store)@.timer.stopped(), ..old(store)@ }),
{
    store.timer.stop();
    Notification::Timer(store.timer.state())
}

/// The critical section of one iteration of the background loop that was
/// given `loop_epoch`. The outcome says what to publish and whether the
/// loop goes on. The checklist is not touched.
pub fn timer_tick(store: &mut Store, loop_epoch: u64) -> (outcome: TickOutcome)
    ensures
        outcome == old(store)@.timer.tick_outcome(loop_epoch as nat),
        final(store)@ == (StoreModel {
            timer: old(store)@.timer.ticked(loop_epoch as nat),
            ..old(store)@
        }),
{
    store.timer.tick(loop_epoch)
}

/// A snapshot of the timer.
pub fn get_timer_state(store: &Store) -> (state: TimerState)
    ensures
        state == store@.timer.state,
{
    store.timer.state()
}

/// A snapshot of the checklist.
pub fn get_tasks(store: &Store) -> (tasks: TasksState)
    ensures
        tasks@ == store@.tasks,
        tasks.spec_total_tasks() == store.tasks.spec_total_tasks(),
        tasks.spec_completed_tasks() == store.tasks.spec_completed_tasks(),
{
    store.tasks.clone()
}

/// Toggles the first task with this id. With such a task, the checklist
/// snapshot is handed back for publishing under `tasks-update`; without
/// one, nothing changes and nothing is published. The timer is not touched.
pub fn toggle_task(id: String, store: &mut Store) -> (notification: Option<Notification>)
    ensures
        final(store)@ == (StoreModel { tasks: toggled(old(store)@.tasks, id@), ..old(store)@ }),
        final(store).tasks.spec_total_tasks() == final(store)@.tasks.len(),
        final(store).tasks.spec_completed_tasks() == count_completed(final(store)@.tasks),
        notification is Some <==> has_id(old(store)@.tasks, id@),
        notification matches Some(n) ==> n@ == NotificationView::Tasks(final(store)@.tasks),
{
    if store.tasks.toggle(&id) {
        Some(Notification::Tasks(store.tasks.clone()))
    } else {
        None
    }
}

/// Removes every task with this id and hands back the checklist snapshot
/// for publishing under `tasks-update`, whether or not anything was
/// removed. The timer is not touched.
pub fn remove_task(id: String, store: &mut Store) -> (notification: Notification)
    ensures
        final(store)@ == (StoreModel { tasks: removed(old(store)@.tasks, id@), ..old(store)@ }),
        final(store).tasks.spec_total_tasks() == final(store)@.tasks.len(),
        final(store).tasks.spec_completed_tasks() == count_completed(final(store)@.tasks),
        notification@ == NotificationView::Tasks(final(store)@.tasks),
{
    store.tasks.remove(&id);
    Notification::Tasks(store.tasks.clone())
}

} // verus!
