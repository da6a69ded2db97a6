//! The registry: a guarded slot holding at most one watcher.
//!
//! The application keeps one registry for its whole life, behind a mutex the
//! dispatch layer locks for each call; the decisions made under the lock live
//! here.  The slot holds at most one watcher, created on first use from the
//! injected configuration, and the registry also caches the last enumerated
//! monitors map.

use vstd::prelude::*;

use crate::app_config::{AppConfig, WatcherConfig};
use crate::display::DisplayMode;
use crate::monitors::MonitorMap;
use crate::watcher::ProcessWatcher;

verus! {

/// The process-wide state: the watcher slot and the monitors cache.
pub struct AppState {
    pub watcher: Option<ProcessWatcher>,
    pub monitors: MonitorMap,
}

/// Whether the registry's watcher exists and is watching.
pub open spec fn spec_watching(s: AppState) -> bool {
    match s.watcher {
        Some(w) => w.watching(),
        None => false,
    }
}

/// Whether the registry's watcher exists and last observed the game running.
pub open spec fn spec_gaming(s: AppState) -> bool {
    match s.watcher {
        Some(w) => w.running_flag(),
        None => false,
    }
}

impl AppState {
    /// The held watcher, if any, is well formed, and so is the monitors map.
    pub open spec fn wf(self) -> bool {
        (self.watcher matches Some(w) ==> w.wf()) && self.monitors.wf()
    }

    /// A fresh registry: no watcher yet, no monitors enumerated.
    pub fn new() -> (s: Self)
        ensures
            s.watcher is None,
            s.monitors@ == Map::<Seq<char>, Seq<char>>::empty(),
            s.wf(),
    {
        AppState { watcher: None, monitors: MonitorMap::new() }
    }
}

impl Default for AppState {
    fn default() -> (s: Self)
        ensures
            s.watcher is None,
            s.monitors@ == Map::<Seq<char>, Seq<char>>::empty(),
            s.wf(),
    {
        AppState::new()
    }
}

/// Watching becomes idle and idle becomes watching; a missing watcher is
/// first created, idle, from the injected configuration — unless no game path
/// is configured, which is the one user-facing error.  Returns the new
/// watching flag.
pub fn toggle_watching(state: &mut AppState, config: &WatcherConfig) -> (r: Result<bool, String>)
    requires
        old(state).wf(),
    ensures
        final(state).wf(),
        final(state).monitors == old(state).monitors,
        old(state).watcher matches Some(w) ==> {
            &&& r == Ok::<bool, String>(!w.watching())
            &&& final(state).watcher matches Some(w2)
            &&& w2.watching() == !w.watching()
            &&& w2.process_path == w.process_path
            &&& w2.display_mode == w.display_mode
            &&& w2.running_flag() == w.running_flag()
        },
        old(state).watcher is None ==> match config.game_path {
            None => {
                &&& r matches Err(m)
                &&& m@ == "game path is not configured"@
                &&& final(state).watcher is None
            },
            Some(p) => {
                &&& r == Ok::<bool, String>(true)
                &&& final(state).watcher matches Some(w)
                &&& w.process_path@ == p@
                &&& w.display_mode.width == config.width
                &&& w.display_mode.height == config.height
                &&& w.display_mode.refresh_rate == config.fps
                &&& w.display_mode.bits_per_pixel is None
                &&& w.display_mode.monitor_name@.len() == 0
                &&& w.watching()
                &&& !w.running_flag()
                &&& w.spawn_count() == 1
            },
        },
        r is Ok ==> r == Ok::<bool, String>(spec_watching(*final(state))),
{
    match &mut state.watcher {
        Some(w) => {
            let now_watching = w.toggle();
            Ok(now_watching)
        },
        None => {
            match &config.game_path {
                None => Err(String::from_str("game path is not configured")),
                Some(p) => {
                    let mode = DisplayMode {
                        width: config.width,
                        height: config.height,
                        refresh_rate: config.fps,
                        bits_per_pixel: None,
                        monitor_name: String::new(),
                    };
                    let mut w = ProcessWatcher::new(p.clone(), mode);
                    w.start();
                    state.watcher = Some(w);
                    Ok(true)
                },
            }
        },
    }
}

/// Whether a polling task is live; blocks only for the registry lock, never
/// on the task itself.
pub fn get_watching_status(state: &AppState) -> (r: bool)
    ensures
        r == spec_watching(*state),
{
    match &state.watcher {
        Some(w) => w.is_watching(),
        None => false,
    }
}

/// Whether the game was last observed running, independent of whether any
/// display change succeeded.
pub fn get_gaming_status(state: &AppState) -> (r: bool)
    ensures
        r == spec_gaming(*state),
{
    match &state.watcher {
        Some(w) => w.is_running(),
        None => false,
    }
}

/// Binds the watcher's target mode to one named monitor, creating the
/// watcher idle from the injected configuration when none exists yet.  An
/// existing watcher keeps everything else, a live polling task included:
/// the new name binds without a restart.
pub fn select_monitor(state: &mut AppState, monitor_name: String, config: &WatcherConfig) -> (r:
    Result<(), String>)
    requires
        old(state).wf(),
    ensures
        final(state).wf(),
        final(state).monitors == old(state).monitors,
        old(state).watcher matches Some(w) ==> {
            &&& r is Ok
            &&& final(state).watcher matches Some(w2)
            &&& w2.display_mode.monitor_name == monitor_name
            &&& w2.display_mode.width == w.display_mode.width
            &&& w2.display_mode.height == w.display_mode.height
            &&& w2.display_mode.refresh_rate == w.display_mode.refresh_rate
            &&& w2.process_path == w.process_path
            &&& w2.watching() == w.watching()
            &&& w2.running_flag() == w.running_flag()
            &&& w2.spawn_count() == w.spawn_count()
            &&& w2.stop_count() == w.stop_count()
        },
        old(state).watcher is None ==> match config.game_path {
            None => {
                &&& r matches Err(m)
                &&& m@ == "game path is not configured"@
                &&& final(state).watcher is None
            },
            Some(p) => {
                &&& r is Ok
                &&& final(state).watcher matches Some(w)
                &&& w.process_path@ == p@
                &&& w.display_mode.width == config.width
                &&& w.display_mode.height == config.height
                &&& w.display_mode.refresh_rate == config.fps
                &&& w.display_mode.monitor_name == monitor_name
                &&& !w.watching()
                &&& !w.running_flag()
            },
        },
{
    match &mut state.watcher {
        Some(w) => {
            w.select_monitor(monitor_name);
            Ok(())
        },
        None => {
            match &config.game_path {
                None => Err(String::from_str("game path is not configured")),
                Some(p) => {
                    let mode = DisplayMode {
                        width: config.width,
                        height: config.height,
                        refresh_rate: config.fps,
                        bits_per_pixel: None,
                        monitor_name,
                    };
                    let w = ProcessWatcher::new(p.clone(), mode);
                    state.watcher = Some(w);
                    Ok(())
                },
            }
        },
    }
}

/// Stores a freshly enumerated monitors map in the cache.
pub fn update_monitors(state: &mut AppState, monitors: MonitorMap)
    requires
        old(state).wf(),
        monitors.wf(),
    ensures
        final(state).wf(),
        final(state).monitors == monitors,
        final(state).watcher == old(state).watcher,
{
    state.monitors = monitors;
}

/// The cached monitors map, as last enumerated.
pub fn get_monitors_map(state: &AppState) -> (r: &MonitorMap)
    ensures
        r == &state.monitors,
{
    &state.monitors
}

/// Applies a saved configuration to the held watcher: the target mode is
/// replaced (back on the primary output), and a live watcher is restarted so
/// the polling task picks the new mode up.  Returns whether a restart
/// happened.
pub fn apply_config_update(state: &mut AppState, width: u32, height: u32, fps: u32) -> (restarted:
    bool)
    requires
        old(state).wf(),
    ensures
        final(state).wf(),
        final(state).monitors == old(state).monitors,
        old(state).watcher is None ==> final(state).watcher is None && !restarted,
        old(state).watcher matches Some(w) ==> {
            &&& restarted == w.watching()
            &&& final(state).watcher matches Some(w2)
            &&& w2.process_path == w.process_path
            &&& w2.display_mode.width == width
            &&& w2.display_mode.height == height
            &&& w2.display_mode.refresh_rate == fps
            &&& w2.display_mode.bits_per_pixel is None
            &&& w2.display_mode.monitor_name@.len() == 0
            &&& w2.watching() == w.watching()
            &&& w2.running_flag() == w.running_flag()
            &&& w2.spawn_count() == w.spawn_count() + (if w.watching() {
                1nat
            } else {
                0nat
            })
        },
{
    match &mut state.watcher {
        Some(w) => {
            let mode = DisplayMode {
                width,
                height,
                refresh_rate: fps,
                bits_per_pixel: None,
                monitor_name: String::new(),
            };
            w.set_display_mode(mode);
            if w.is_watching() {
                w.stop();
                w.start();
                true
            } else {
                false
            }
        },
        None => false,
    }
}

/// Creates a preset watcher from the game integration's launcher path and
/// puts it in the slot, idle; the launcher path is also written back as the
/// watcher's game path for persisting.  Fails when no launcher path is
/// known.  A watcher the slot already held is stopped first — its polling
/// task never outlives its place in the registry — and handed back, so the
/// caller can abort the real task it stood for.
pub fn create_preset_watcher(state: &mut AppState, config: &mut AppConfig) -> (r: Result<
    Option<ProcessWatcher>,
    String,
>)
    requires
        old(state).wf(),
    ensures
        final(state).wf(),
        final(state).monitors == old(state).monitors,
        old(config).valorant.launcher_path is None ==> {
            &&& r matches Err(m) && m@ == "launcher path is not configured"@
            &&& final(state).watcher == old(state).watcher
            &&& final(config).watcher.game_path == old(config).watcher.game_path
        },
        old(config).valorant.launcher_path matches Some(p) ==> {
            &&& r is Ok
            &&& final(state).watcher matches Some(w)
            &&& w.process_path@ == p@
            &&& w.display_mode.width == old(config).watcher.width
            &&& w.display_mode.height == old(config).watcher.height
            &&& w.display_mode.refresh_rate == old(config).watcher.fps
            &&& w.display_mode.monitor_name@.len() == 0
            &&& !w.watching()
            &&& !w.running_flag()
            &&& final(config).watcher.game_path matches Some(g)
            &&& g@ == p@
        },
        old(config).valorant.launcher_path is Some && old(state).watcher is None ==> r == Ok::<
            Option<ProcessWatcher>,
            String,
        >(None),
        old(config).valorant.launcher_path is Some ==> match old(state).watcher {
            Some(w0) => {
                &&& r matches Ok(prev)
                &&& prev matches Some(wp)
                &&& !wp.watching()
                &&& wp.stop_count() == w0.stop_count() + (if w0.watching() {
                    1nat
                } else {
                    0nat
                })
                &&& wp.spawn_count() == w0.spawn_count()
                &&& wp.wf()
                &&& wp.process_path == w0.process_path
                &&& wp.display_mode == w0.display_mode
                &&& wp.running_flag() == w0.running_flag()
            },
            None => true,
        },
        final(config).watcher.width == old(config).watcher.width,
        final(config).watcher.height == old(config).watcher.height,
        final(config).watcher.fps == old(config).watcher.fps,
        final(config).valorant.launcher_path == old(config).valorant.launcher_path,
        final(config).valorant.game_path == old(config).valorant.game_path,
        final(config).development == old(config).development,
{
    match &config.valorant.launcher_path {
        None => Err(String::from_str("launcher path is not configured")),
        Some(p) => {
            let launcher = p.clone();
            match &mut state.watcher {
                Some(w0) => {
                    w0.stop();
                },
                None => {},
            }
            let displaced = state.watcher.take();
            let mode = DisplayMode {
                width: config.watcher.width,
                height: config.watcher.height,
                refresh_rate: config.watcher.fps,
                bits_per_pixel: None,
                monitor_name: String::new(),
            };
            let w = ProcessWatcher::new(launcher.clone(), mode);
            state.watcher = Some(w);
            config.watcher.game_path = Some(launcher);
            Ok(displaced)
        },
    }
}

} // verus!
