//! The application configuration: what the watcher, the game integration and
//! development switches are set to.
//!
//! Loading and saving the TOML file is I/O done outside the library; the
//! values arrive here as plain structs and are handed to the registry when a
//! watcher is created.

use vstd::prelude::*;

verus! {

/// The watcher's settings: the watched process path, if one is set, and the
/// target width, height and refresh rate.
#[derive(Debug)]
pub struct WatcherConfig {
    pub game_path: Option<String>,
    pub width: u32,
    pub height: u32,
    pub fps: u32,
}

/// Paths of the game integration: the launcher and the game installation,
/// where known.
#[derive(Debug)]
pub struct ValorantConfig {
    pub launcher_path: Option<String>,
    pub game_path: Option<String>,
}

/// Development switches.
#[derive(Clone, Copy, Debug, PartialEq, Eq, Structural)]
pub struct DevelopmentConfig {
    pub debug: bool,
}

/// The whole application configuration.
#[derive(Debug)]
pub struct AppConfig {
    pub watcher: WatcherConfig,
    pub valorant: ValorantConfig,
    pub development: DevelopmentConfig,
}

} // verus!
