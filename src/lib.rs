//! A Pomodoro timer's logic: the countdown engine for one phase, the
//! sequencing of work and break phases, the mapping of keys to control
//! signals, and the text shown while a phase runs.

pub mod clock_text;
pub mod listener;
pub mod session;
pub mod signal;
pub mod timer;
