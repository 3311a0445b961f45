use vstd::prelude::*;

verus! {

/// Width of the screen, in pixels, at scale 1.
pub const BASE_WIDTH: u32 = 320;

/// Height of the screen, in pixels, at scale 1.
pub const BASE_HEIGHT: u32 = 200;

/// Rows at the bottom of the screen, at scale 1, kept for a status bar.
pub const STATUS_LINES: u32 = 40;

/// Side of a (square) wall texture, in texels.
pub const WALLPIC_WIDTH: usize = 64;

/// Number of tile columns of a map.
pub const MAP_WIDTH: usize = 64;

/// Number of tile rows of a map.
pub const MAP_HEIGHT: usize = 64;

/// World units in the width of one tile.
pub const MAP_SCALE_W: u32 = 64;

/// World units in the height of one tile.
pub const MAP_SCALE_H: u32 = 64;

} // verus!
