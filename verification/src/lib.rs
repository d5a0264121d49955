//! A library for rendering a rotating wireframe cube on a character grid.
//!
//! The pipeline works on plain integer data: fixed cube geometry, rotation
//! angles accumulated in tenths of a radian, perspective coordinates clamped
//! onto the grid, and integer line rasterization onto a screen buffer.
//! Floating-point trigonometry and terminal I/O live outside this crate;
//! they hand integer coordinates in and read characters back out.

use vstd::prelude::*;

pub mod geometry;
pub mod input;
pub mod projector;
pub mod raster;
pub mod screen;
pub mod state;

verus! {

/// Width of the character grid, in columns.
pub const WIDTH: usize = 80;

/// Height of the character grid, in rows.
pub const HEIGHT: usize = 24;

} // verus!
