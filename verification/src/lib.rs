//! A one-shot maintenance runner: update every package, then purge the
//! orphans, as the privileged identity and stopping at the first failure.
//!
//! The library holds the decisions of such a run and none of its effects. A
//! [`runner::Runner`] says what is to be done outside next (read the
//! caller's identity, launch a command, end the process) and, handed what
//! came of it, what to print and where the run stands. Whoever drives it
//! does the reading, the launching and the printing. [`trace`] says what a
//! whole run comes to and proves what holds of every run; [`maintenance`]
//! holds the two steps themselves.

pub mod decimal;
pub mod maintenance;
pub mod message;
pub mod runner;
pub mod step;
pub mod style;
pub mod trace;
