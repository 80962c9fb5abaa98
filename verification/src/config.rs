//! Color configuration for the rendering collaborator.
//!
//! Loading a configuration file is the shell's business; the library only
//! defines the value and its built-in defaults, used as the fallback when
//! no file can be read or parsed.

use vstd::prelude::*;

verus! {

/// The colors the renderer draws with, as RGB triples.
#[derive(Clone, Copy, Debug, PartialEq, Eq)]
pub struct Color {
    pub background: (u8, u8, u8),
    pub dynamic_particle: (u8, u8, u8),
    pub static_particle: (u8, u8, u8),
}

/// Stores all config fields.
#[derive(Clone, Copy, Debug, PartialEq, Eq)]
pub struct Config {
    pub color: Color,
}

impl Config {
    /// The built-in defaults: black background, cyan dynamic particles,
    /// red static anchors.
    pub fn default() -> (r: Config)
        ensures
            r.color.background == (0u8, 0u8, 0u8),
            r.color.dynamic_particle == (0u8, 255u8, 255u8),
            r.color.static_particle == (255u8, 0u8, 0u8),
    {
        Config {
            color: Color {
                background: (0, 0, 0),
                dynamic_particle: (0, 255, 255),
                static_particle: (255, 0, 0),
            },
        }
    }
}

} // verus!
