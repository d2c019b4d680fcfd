//! A sector-based pseudo-3D level editor and renderer core.
//!
//! A level is a flat sequence of directed walls partitioned into sectors;
//! the library carries the spatial model, the 2D editing geometry, the 3D
//! projection pipeline, and a level codec. All drawing is emitted as plain
//! draw commands; a thin frontend replays them onto a real canvas.
use vstd::prelude::*;

pub mod codec;
pub mod color;
pub mod edit;
pub mod level;
pub mod math;
pub mod renderer;
pub mod texture;

verus! {

/// Screen resolution multiplier shared by both view modes.
pub const RESOLUTION: usize = 7;
/// Width of the screen in pixels.
pub const SCREEN_WIDTH: usize = 1120;
/// Half the screen width; the horizontal projection center.
pub const HALF_WIDTH: usize = 560;
/// Height of the screen in pixels.
pub const SCREEN_HEIGHT: usize = 840;
/// Half the screen height; the vertical projection center.
pub const HALF_HEIGHT: usize = 420;
/// Size of one logical pixel on the canvas.
pub const PIXEL_SCALE: usize = 1;

} // verus!
