//! Process-triggered display reconfiguration.
//!
//! The library watches for a designated game process to start or stop and
//! reacts by switching the display to a target mode (or by disabling all but
//! one monitor), then reverting when the process exits.  Everything with
//! decision content lives here, verified: the edge-triggered polling state
//! machine, the registry that guards the single watcher slot, the two-phase
//! (test-then-commit) display mode change protocol, monitor enumeration and
//! filtering, the parser for the device-enumeration utility's output, and the
//! text utilities that rewrite game configuration files.  The thin layer that
//! performs OS calls, file I/O and async scheduling sits outside and feeds
//! plain values in and out.

pub mod app_config;
pub mod config;
pub mod display;
pub mod game_settings;
pub mod logs;
pub mod modes;
pub mod monitors;
pub mod process;
pub mod scan;
pub mod state;
pub mod strategy;
pub mod strutil;
pub mod text;
pub mod watcher;
