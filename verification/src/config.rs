//! Resolution profiles: the desktop and game resolutions the topology
//! watcher variant switches between.
//!
//! Reading and writing the configuration file is I/O done outside the
//! library; the values arrive here as plain structs, and the library renders
//! the persisted form exactly.

use vstd::prelude::*;

use crate::strutil::{spec_dec, u32_to_string};

verus! {

/// One resolution profile: width and height in pixels, refresh rate in Hz.
#[derive(Clone, Copy, Debug, PartialEq, Eq, Structural)]
pub struct ResolutionConfig {
    pub width: u32,
    pub height: u32,
    pub refresh_rate: u32,
}

/// The configuration the dispatch layer exchanges: the desktop profile to
/// restore and the game profile to apply.
#[derive(Clone, Copy, Debug, PartialEq, Eq, Structural)]
pub struct AppConfig {
    pub desktop: ResolutionConfig,
    pub game: ResolutionConfig,
}

/// The persisted form of a configuration: a `Desktop` and a `Game` section,
/// each with its three keys in decimal.
pub open spec fn spec_render_config(c: AppConfig) -> Seq<char> {
    "[Desktop]\nResolutionSizeX = "@ + spec_dec(c.desktop.width as int)
        + "\nResolutionSizeY = "@ + spec_dec(c.desktop.height as int) + "\nRefreshRate = "@
        + spec_dec(c.desktop.refresh_rate as int) + "\n\n[Game]\nResolutionSizeX = "@ + spec_dec(
        c.game.width as int,
    ) + "\nResolutionSizeY = "@ + spec_dec(c.game.height as int) + "\nRefreshRate = "@ + spec_dec(
        c.game.refresh_rate as int,
    ) + "\n"@
}

/// Renders a configuration in its persisted form; writing it to disk is the
/// caller's I/O.
pub fn render_config(c: &AppConfig) -> (r: String)
    ensures
        r@ == spec_render_config(*c),
{
    let mut s = String::from_str("[Desktop]\nResolutionSizeX = ");
    let d = u32_to_string(c.desktop.width);
    s.append(d.as_str());
    s.append("\nResolutionSizeY = ");
    let d = u32_to_string(c.desktop.height);
    s.append(d.as_str());
    s.append("\nRefreshRate = ");
    let d = u32_to_string(c.desktop.refresh_rate);
    s.append(d.as_str());
    s.append("\n\n[Game]\nResolutionSizeX = ");
    let d = u32_to_string(c.game.width);
    s.append(d.as_str());
    s.append("\nResolutionSizeY = ");
    let d = u32_to_string(c.game.height);
    s.append(d.as_str());
    s.append("\nRefreshRate = ");
    let d = u32_to_string(c.game.refresh_rate);
    s.append(d.as_str());
    s.append("\n");
    proof {
        assert(s@ =~= spec_render_config(*c));
    }
    s
}

} // verus!
