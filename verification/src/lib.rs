//! A personal planner: calendar events that may recur, the rule that decides which
//! reminders are due at a given moment, the store that holds the events, and the
//! pass of the scheduler that works through them.
//!
//! The library computes and decides; it neither reads the clock nor touches a
//! file, and it knows no time zone. Its callers hand it the clock as the host
//! reads it and what they read from the file, and carry out what it hands back:
//! the reminders to deliver and the word on whether the events are to be saved.
//!
//! - [`moment`]: instants, their wall-clock readings, and the host's clock.
//! - [`recurrence`]: recurrence rules and the predicate that tells whether a
//!   rule is active.
//! - [`notification`]: reminders and the latch that makes each go off once.
//! - [`event`]: events and the check that tells which reminders are due.
//! - [`scheduler`]: one pass over the events.
//! - [`event_manager`]: the store of the events.
//! - [`laws`]: what holds of these together.
//! - [`args`], [`utils`], [`categories`], [`tui`], [`text`]: what the command
//!   line and the terminal view need around them.

pub mod args;
pub mod categories;
pub mod event;
pub mod event_manager;
pub mod laws;
pub mod moment;
pub mod notification;
pub mod recurrence;
pub mod scheduler;
pub mod text;
pub mod tui;
pub mod utils;
