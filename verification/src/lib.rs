//! Idle-watch escalation: a pure, pollable state machine that samples idle
//! time each tick, fires a first escalation (close the last active window,
//! optionally run a command) once idle time passes a threshold, then after an
//! optional snooze counts down to a terminal action. All timestamps and
//! durations are milliseconds on a monotonic clock; all side effects are
//! returned to the caller as explicit effect requests.
//!
//! - `config`: the validated, immutable settings;
//! - `state`: the mutable per-run state, input events, and resets;
//! - `machine`: the per-tick phase logic and its effect requests;
//! - `run`: laws about whole runs of ticks;
//! - `args`: the command-line parser;
//! - `render`: the textual status display.

pub mod args;
pub mod config;
pub mod machine;
pub mod render;
pub mod run;
pub mod state;
