//! Filling the pixel buffer: the sequential renderer and the band
//! dispatcher.

use vstd::prelude::*;

use crate::complex::Complex;
use crate::escape::{escape_time, min_escape};
use crate::mapper::{pixel_to_point, pixel_to_point_spec};

verus! {

/// The iteration budget of the escape-time evaluator for every pixel.
pub const ITERATION_LIMIT: usize = 255;

/// The gray value of one pixel: black for a point that never escapes
/// within the budget, `255 - count` for one that escapes after `count`
/// iterations, so that quickly escaping points are near-white.
pub open spec fn pixel_color(
    bounds: (usize, usize),
    column: int,
    row: int,
    upper_left: Complex,
    lower_right: Complex,
) -> u8 {
    match min_escape(
        pixel_to_point_spec(bounds, (column as usize, row as usize), upper_left, lower_right),
        ITERATION_LIMIT as nat,
    ) {
        None => 0u8,
        Some(count) => (255 - count) as u8,
    }
}

/// Fill the row-major buffer `pixels`, whose dimensions are given by
/// `bounds`, with the gray value of every pixel of the viewport between
/// `upper_left` and `lower_right`. The buffer's length must equal
/// `width * height`; every byte of it is overwritten.
pub fn render(
    pixels: &mut Vec<u8>,
    bounds: (usize, usize),
    upper_left: Complex,
    lower_right: Complex,
)
    requires
        bounds.0 > 0,
        bounds.1 > 0,
        old(pixels)@.len() == bounds.0 * bounds.1,
    ensures
        final(pixels)@.len() == bounds.0 * bounds.1,
        forall|row: int, column: int|
            0 <= row < bounds.1 && 0 <= column < bounds.0 ==> final(pixels)@[row * bounds.0
                + column] == pixel_color(bounds, column, row, upper_left, lower_right),
{
    let width = bounds.0;
    let height = bounds.1;
    let mut row: usize = 0;
    while row < height
        invariant
            width == bounds.0,
            height == bounds.1,
            width > 0,
            height > 0,
            row <= height,
            pixels@.len() == width * height,
            forall|r: int, c: int|
                0 <= r < row && 0 <= c < width ==> pixels@[r * width + c] == pixel_color(
                    bounds,
                    c,
                    r,
                    upper_left,
                    lower_right,
                ),
        decreases height - row,
    {
        let mut column: usize = 0;
        while column < width
            invariant
                width == bounds.0,
                height == bounds.1,
                width > 0,
                height > 0,
                row < height,
                column <= width,
                pixels@.len() == width * height,
                forall|r: int, c: int|
                    0 <= r < row && 0 <= c < width ==> pixels@[r * width + c] == pixel_color(
                        bounds,
                        c,
                        r,
                        upper_left,
                        lower_right,
                    ),
                forall|c: int|
                    0 <= c < column ==> pixels@[row * width + c] == pixel_color(
                        bounds,
                        c,
                        row as int,
                        upper_left,
                        lower_right,
                    ),
            decreases width - column,
        {
            proof {
                assert(row * width + column < height * width) by (nonlinear_arith)
                    requires
                        0 <= row < height,
                        0 <= column < width,
                ;
                assert(width * height == height * width) by (nonlinear_arith);
                assert(pixels@.len() <= usize::MAX) by {
                    vstd::std_specs::vec::axiom_spec_len(pixels);
                }
            }
            let point = pixel_to_point(bounds, (column, row), upper_left, lower_right);
            let gray: u8 = match escape_time(point, ITERATION_LIMIT) {
                None => 0,
                Some(count) => 255 - (count as u8),
            };
            let index = row * width + column;
            pixels[index] = gray;
            proof {
                assert forall|r: int, c: int|
                    0 <= r < row && 0 <= c < width implies #[trigger] pixels@[r * width + c]
                    == pixel_color(bounds, c, r, upper_left, lower_right) by {
                    assert(r * width + c < row * width + column) by (nonlinear_arith)
                        requires
                            0 <= r < row,
                            0 <= c < width,
                            0 <= column,
                    ;
                }
            }
            column = column + 1;
        }
        row = row + 1;
    }
}

} // verus!
