//! Event scheduling and fan-out core of a status bar.
//!
//! `channel` holds the single-slot broadcast channels, `timer` the interval
//! schedule, and `listeners` the registry that multiplexes timer,
//! file-change and workspace events onto subscribers. `workspaces` and
//! `custom` turn what was read from the system into segment text.

pub mod channel;
pub mod timer;
pub mod listeners;
pub mod workspaces;
pub mod custom;
