//! Where each pixel of the frame buffer goes in a window.
use crate::model::{DISPLAY_X, DISPLAY_Y};
use vstd::prelude::*;

verus! {

/// Side of one drawn pixel, in window pixels.
pub const PIXEL_SIZE: usize = 16;

/// Margin around the drawn frame, in window pixels.
pub const PIXEL_PAD_SIZE: usize = PIXEL_SIZE / 2;

/// Width of a window that holds the whole frame and its margin.
pub const WINDOW_X_SIZE: usize = DISPLAY_X * PIXEL_SIZE + PIXEL_PAD_SIZE * 2;

/// Height of a window that holds the whole frame and its margin.
pub const WINDOW_Y_SIZE: usize = DISPLAY_Y * PIXEL_SIZE + PIXEL_PAD_SIZE * 2;

/// The window position of the top-left corner of the square that shows the
/// pixel in column `col` and row `row`.
pub fn cell_origin(col: usize, row: usize) -> (r: (i32, i32))
    requires
        col < DISPLAY_X,
        row < DISPLAY_Y,
    ensures
        r.0 == col * PIXEL_SIZE + PIXEL_PAD_SIZE,
        r.1 == row * PIXEL_SIZE + PIXEL_PAD_SIZE,
{
    ((col * PIXEL_SIZE + PIXEL_PAD_SIZE) as i32, (row * PIXEL_SIZE + PIXEL_PAD_SIZE) as i32)
}

} // verus!
