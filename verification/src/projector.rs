//! The integer tail of the perspective projection.
//!
//! The floating-point front end (scaling a rotated point by
//! `SCALE / (z + DISTANCE)` and recentering) happens outside this crate; it
//! hands over a raw integer coordinate pair, and this module clamps it onto
//! the visible grid.

use vstd::prelude::*;

verus! {

use crate::HEIGHT;
use crate::WIDTH;

/// A raw coordinate clamped into `[0, limit - 1]`.
pub open spec fn clamp_coord(v: int, limit: int) -> int {
    if v < 0 {
        0
    } else if v > limit - 1 {
        limit - 1
    } else {
        v
    }
}

/// Clamp a raw screen coordinate pair onto the grid. For every input, the
/// result lies within `[0, WIDTH - 1] x [0, HEIGHT - 1]`; coordinates that
/// already lie on the grid pass through unchanged.
pub fn clamp_to_screen(x: i64, y: i64) -> (p: (usize, usize))
    ensures
        p.0 < WIDTH,
        p.1 < HEIGHT,
        p.0 as int == clamp_coord(x as int, WIDTH as int),
        p.1 as int == clamp_coord(y as int, HEIGHT as int),
{
    let cx: i64 = if x < 0 {
        0
    } else if x > (WIDTH - 1) as i64 {
        (WIDTH - 1) as i64
    } else {
        x
    };
    let cy: i64 = if y < 0 {
        0
    } else if y > (HEIGHT - 1) as i64 {
        (HEIGHT - 1) as i64
    } else {
        y
    };
    (cx as usize, cy as usize)
}

} // verus!
