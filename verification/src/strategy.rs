//! What to do on an edge: the reconfiguration strategies.
//!
//! The watcher reports edges; a strategy turns an edge into display commands
//! for the OS-facing loop to perform.  One strategy changes the display mode
//! when the game appears and restores the defaults when it exits; the
//! alternative disables all other monitors and switches between two persisted
//! resolution profiles.

use vstd::prelude::*;

use crate::config::ResolutionConfig;
use crate::display::DisplayMode;
use crate::watcher::Edge;

verus! {

/// One command for the OS-facing display loop.
#[derive(Debug)]
pub enum DisplayCommand {
    /// Test-then-commit the mode on the primary output.
    ChangeMode { mode: DisplayMode, permanent: bool },
    /// Test-then-commit the mode on the monitor the mode names.
    ChangeModeForMonitor { mode: DisplayMode, permanent: bool },
    /// Revert to the OS-stored persistent configuration.
    RestoreDefaults,
}

impl Clone for DisplayCommand {
    fn clone(&self) -> (r: Self)
        ensures
            r == *self,
    {
        match self {
            DisplayCommand::ChangeMode { mode, permanent } => DisplayCommand::ChangeMode {
                mode: mode.clone(),
                permanent: *permanent,
            },
            DisplayCommand::ChangeModeForMonitor { mode, permanent } => {
                DisplayCommand::ChangeModeForMonitor { mode: mode.clone(), permanent: *permanent }
            },
            DisplayCommand::RestoreDefaults => DisplayCommand::RestoreDefaults,
        }
    }
}

/// The mode-switching strategy's command for an edge: on a rising edge apply
/// the target mode — per monitor when the mode names one — as a session-only
/// change; on a falling edge restore the defaults; on a steady tick, nothing.
pub fn display_action_for_edge(edge: Edge, mode: &DisplayMode) -> (r: Option<DisplayCommand>)
    ensures
        edge == Edge::Steady ==> r is None,
        edge == Edge::Fall ==> r == Some(DisplayCommand::RestoreDefaults),
        edge == Edge::Rise && mode.monitor_name@.len() == 0 ==> r == Some(
            DisplayCommand::ChangeMode { mode: *mode, permanent: false },
        ),
        edge == Edge::Rise && mode.monitor_name@.len() != 0 ==> r == Some(
            DisplayCommand::ChangeModeForMonitor { mode: *mode, permanent: false },
        ),
{
    match edge {
        Edge::Rise => {
            if mode.targets_primary() {
                Some(DisplayCommand::ChangeMode { mode: mode.clone(), permanent: false })
            } else {
                Some(DisplayCommand::ChangeModeForMonitor { mode: mode.clone(), permanent: false })
            }
        },
        Edge::Fall => Some(DisplayCommand::RestoreDefaults),
        Edge::Steady => None,
    }
}

/// Whether a display mode asks for exactly a resolution profile, on the
/// primary output and with no colour depth pinned.
pub open spec fn mode_matches_profile(m: DisplayMode, p: ResolutionConfig) -> bool {
    m.width == p.width && m.height == p.height && m.refresh_rate == p.refresh_rate
        && m.bits_per_pixel is None && m.monitor_name@.len() == 0
}

/// The topology strategy's resolution for an edge: the game profile when the
/// game appears, the desktop profile back when it exits, nothing on a steady
/// tick.  This variant persists each change, so the commit carries
/// `permanent` true.
pub fn topology_mode_for_edge(edge: Edge, game: &ResolutionConfig, desktop: &ResolutionConfig) -> (
    r: Option<DisplayCommand>)
    ensures
        edge == Edge::Steady ==> r is None,
        edge == Edge::Rise ==> match r {
            Some(DisplayCommand::ChangeMode { mode, permanent }) => mode_matches_profile(
                mode,
                *game,
            ) && permanent,
            _ => false,
        },
        edge == Edge::Fall ==> match r {
            Some(DisplayCommand::ChangeMode { mode, permanent }) => mode_matches_profile(
                mode,
                *desktop,
            ) && permanent,
            _ => false,
        },
{
    let profile = match edge {
        Edge::Rise => game,
        Edge::Fall => desktop,
        Edge::Steady => {
            return None;
        },
    };
    Some(
        DisplayCommand::ChangeMode {
            mode: DisplayMode {
                width: profile.width,
                height: profile.height,
                refresh_rate: profile.refresh_rate,
                bits_per_pixel: None,
                monitor_name: String::new(),
            },
            permanent: true,
        },
    )
}

} // verus!
