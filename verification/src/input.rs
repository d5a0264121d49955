//! Decoding raw terminal bytes into rotation deltas.
//!
//! An arrow key arrives as the three-byte escape sequence `ESC [ code`.
//! Each recognized key yields a rotation delta, counted in tenths of a
//! radian per axis; everything else is discarded.

use vstd::prelude::*;

verus! {

/// The rotation delta `(dx, dy)` for a three-byte input sequence, in tenths
/// of a radian: `None` unless the bytes are `ESC [` followed by the code of
/// Up, Down, Right or Left.
pub open spec fn decode_arrow_spec(b0: u8, b1: u8, b2: u8) -> Option<(i32, i32)> {
    if b0 == 27 && b1 == 91 {
        if b2 == 65 {
            Some((1i32, 0i32))  // Up
        } else if b2 == 66 {
            Some((-1i32, 0i32))  // Down
        } else if b2 == 67 {
            Some((0i32, 1i32))  // Right
        } else if b2 == 68 {
            Some((0i32, -1i32))  // Left
        } else {
            None
        }
    } else {
        None
    }
}

/// Decode one three-byte input sequence into a rotation delta.
pub fn decode_arrow(b0: u8, b1: u8, b2: u8) -> (e: Option<(i32, i32)>)
    ensures
        e == decode_arrow_spec(b0, b1, b2),
{
    if b0 == 27 && b1 == 91 {
        match b2 {
            65 => Some((1, 0)),
            66 => Some((-1, 0)),
            67 => Some((0, 1)),
            68 => Some((0, -1)),
            _ => None,
        }
    } else {
        None
    }
}

} // verus!
