//! A Pomodoro countdown timer and a task checklist, as pure state machines.
//!
//! The crate holds the rules of a small productivity widget: how the timer
//! moves between idle, running and paused, what one tick of its background
//! loop does, how tasks are toggled and removed, and what each command of the
//! widget changes and publishes. Locks, clocks and the event bus stay with
//! the caller, which hands plain values in and takes plain values back.

pub mod commands;
pub mod engine;
pub mod laws;
pub mod notify;
pub mod store;
pub mod tasks;
pub mod timer;
