//! Pomodoro timer core: a timestamp-driven countdown state machine and an
//! append-only history of completed focus intervals.
//!
//! The engine in [`pomodoro`] owns all phase and state transitions; it never
//! samples a clock itself, every operation that needs the current time takes
//! it as a plain unix-seconds argument. [`history`] holds the focus-record
//! type and the derived per-task cumulative tomato counts, [`session`] the
//! round-trip between engine state and a flat persisted snapshot, and
//! [`store`] the durable SQLite-backed record log.

pub mod history;
pub mod laws;
pub mod pomodoro;
pub mod session;
pub mod store;
pub mod text;
pub mod timefmt;
