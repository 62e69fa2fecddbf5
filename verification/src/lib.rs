//! Geometry and state logic for a grid-based dice game: a fixed square grid
//! of cells, a pair of dice sized by a random byte, and the translation
//! between pixel positions and cell coordinates that the renderer needs.

use vstd::prelude::*;

pub mod game;
pub mod geometry;
pub mod render;

verus! {

/// Side length of the square grid, in cells.
pub const FIELD_SIZE: usize = 16;

/// Inset, in pixels, between a cell's background fill and its content fill.
pub const MARGIN: u64 = 2;

} // verus!
