//! The band dispatcher: partition the image into one-row bands, render the
//! bands independently, and assemble the full buffer.

use vstd::prelude::*;

use rayon::iter::{IntoParallelIterator, ParallelIterator};

use crate::complex::Complex;
use crate::mapper::{pixel_to_point, pixel_to_point_spec};
use crate::render::{pixel_color, render};

verus! {

/// The gray value of pixel `(column, row)` as the band dispatcher computes
/// it: the band of row `row` recovers its own viewport corners from the
/// full image's corners through the coordinate mapper, and renders itself
/// as a standalone image of bounds `(width, 1)`.
pub open spec fn band_pixel_color(
    bounds: (usize, usize),
    column: int,
    row: int,
    upper_left: Complex,
    lower_right: Complex,
) -> u8 {
    let band_upper_left = pixel_to_point_spec(
        bounds,
        (0usize, row as usize),
        upper_left,
        lower_right,
    );
    let band_lower_right = pixel_to_point_spec(
        bounds,
        (bounds.0, (row + 1) as usize),
        upper_left,
        lower_right,
    );
    pixel_color((bounds.0, 1usize), column, 0, band_upper_left, band_lower_right)
}

/// Partitioning is purely a performance concern: wherever the derived band
/// viewport maps a band pixel to the very point the full viewport maps it
/// to, the band dispatcher's byte equals the one-pass renderer's byte. The
/// premise is the double-arithmetic identity behind band decomposition; it
/// holds of the usual viewports but is not a consequence of the operations'
/// bit-level names, so it stands here as a premise, pixel by pixel, rather
/// than as a proved fact.
pub proof fn lemma_banded_render_matches_one_pass(
    bounds: (usize, usize),
    upper_left: Complex,
    lower_right: Complex,
)
    requires
        forall|row: int, column: int|
            0 <= row < bounds.1 && 0 <= column < bounds.0 ==> #[trigger] pixel_to_point_spec(
                (bounds.0, 1usize),
                (column as usize, 0usize),
                pixel_to_point_spec(bounds, (0usize, row as usize), upper_left, lower_right),
                pixel_to_point_spec(
                    bounds,
                    (bounds.0, (row + 1) as usize),
                    upper_left,
                    lower_right,
                ),
            ) == pixel_to_point_spec(
                bounds,
                (column as usize, row as usize),
                upper_left,
                lower_right,
            ),
    ensures
        forall|row: int, column: int|
            0 <= row < bounds.1 && 0 <= column < bounds.0 ==> #[trigger] band_pixel_color(
                bounds,
                column,
                row,
                upper_left,
                lower_right,
            ) == pixel_color(bounds, column, row, upper_left, lower_right),
{
    assert forall|row: int, column: int|
        0 <= row < bounds.1 && 0 <= column < bounds.0 implies #[trigger] band_pixel_color(
        bounds,
        column,
        row,
        upper_left,
        lower_right,
    ) == pixel_color(bounds, column, row, upper_left, lower_right) by {
        assert(pixel_to_point_spec(
            (bounds.0, 1usize),
            (column as usize, 0usize),
            pixel_to_point_spec(bounds, (0usize, row as usize), upper_left, lower_right),
            pixel_to_point_spec(bounds, (bounds.0, (row + 1) as usize), upper_left, lower_right),
        ) == pixel_to_point_spec(
            bounds,
            (column as usize, row as usize),
            upper_left,
            lower_right,
        ));
    }
}

/// Render the one-row band at row offset `top` of an image with the given
/// pixel bounds and viewport corners: recover the band's own plane
/// sub-rectangle through the coordinate mapper, and render the band as a
/// standalone image one row tall.
pub fn render_row_band(
    bounds: (usize, usize),
    top: usize,
    upper_left: Complex,
    lower_right: Complex,
) -> (band: Vec<u8>)
    requires
        bounds.0 > 0,
        bounds.1 > 0,
        top < bounds.1,
    ensures
        band@.len() == bounds.0,
        forall|column: int|
            0 <= column < bounds.0 ==> band@[column] == band_pixel_color(
                bounds,
                column,
                top as int,
                upper_left,
                lower_right,
            ),
{
    let band_upper_left = pixel_to_point(bounds, (0, top), upper_left, lower_right);
    let band_lower_right = pixel_to_point(bounds, (bounds.0, top + 1), upper_left, lower_right);
    let mut band: Vec<u8> = Vec::new();
    let mut i: usize = 0;
    while i < bounds.0
        invariant
            i <= bounds.0,
            band@.len() == i,
        decreases bounds.0 - i,
    {
        band.push(0);
        i = i + 1;
    }
    render(&mut band, (bounds.0, 1), band_upper_left, band_lower_right);
    band
}

/// Relies on rayon's parallel iterator over the row offsets: `map` hands
/// every offset in `0..bounds.1`, each exactly once, to the verified band
/// renderer, the closure does nothing besides that call, and the ordered
/// `collect` of the indexed parallel iterator keeps the bands in row
/// order. The bands run concurrently; each owns only its own buffer.
#[verifier::external_body]
fn render_bands_in_parallel(
    bounds: (usize, usize),
    upper_left: Complex,
    lower_right: Complex,
) -> (bands: Vec<Vec<u8>>)
    requires
        bounds.0 > 0,
        bounds.1 > 0,
    ensures
        bands@.len() == bounds.1,
        forall|row: int|
            0 <= row < bounds.1 ==> bands@[row]@.len() == bounds.0,
        forall|row: int, column: int|
            0 <= row < bounds.1 && 0 <= column < bounds.0 ==> bands@[row]@[column]
                == band_pixel_color(bounds, column, row, upper_left, lower_right),
{
    (0..bounds.1)
        .into_par_iter()
        .map(|top| render_row_band(bounds, top, upper_left, lower_right))
        .collect()
}

/// Render the whole image by partitioning it into one-row bands, rendering
/// the bands concurrently — each from its own derived plane sub-rectangle,
/// touching no other band's memory — and joining them, in row order, into
/// one row-major buffer.
pub fn multi_threads_render(
    bounds: (usize, usize),
    upper_left: Complex,
    lower_right: Complex,
) -> (pixels: Vec<u8>)
    requires
        bounds.0 > 0,
        bounds.1 > 0,
    ensures
        pixels@.len() == bounds.0 * bounds.1,
        forall|row: int, column: int|
            0 <= row < bounds.1 && 0 <= column < bounds.0 ==> pixels@[row * bounds.0 + column]
                == band_pixel_color(bounds, column, row, upper_left, lower_right),
{
    let width = bounds.0;
    let height = bounds.1;
    let bands = render_bands_in_parallel(bounds, upper_left, lower_right);
    let mut pixels: Vec<u8> = Vec::new();
    let mut row: usize = 0;
    while row < height
        invariant
            width == bounds.0,
            height == bounds.1,
            width > 0,
            height > 0,
            row <= height,
            bands@.len() == height,
            forall|r: int| 0 <= r < height ==> bands@[r]@.len() == width,
            forall|r: int, c: int|
                0 <= r < height && 0 <= c < width ==> bands@[r]@[c] == band_pixel_color(
                    bounds,
                    c,
                    r,
                    upper_left,
                    lower_right,
                ),
            pixels@.len() == row * width,
            forall|r: int, c: int|
                0 <= r < row && 0 <= c < width ==> pixels@[r * width + c] == band_pixel_color(
                    bounds,
                    c,
                    r,
                    upper_left,
                    lower_right,
                ),
        decreases height - row,
    {
        let mut column: usize = 0;
        while column < width
            invariant
                width == bounds.0,
                height == bounds.1,
                width > 0,
                height > 0,
                row < height,
                column <= width,
                bands@.len() == height,
                forall|r: int| 0 <= r < height ==> bands@[r]@.len() == width,
                forall|r: int, c: int|
                    0 <= r < height && 0 <= c < width ==> bands@[r]@[c] == band_pixel_color(
                        bounds,
                        c,
                        r,
                        upper_left,
                        lower_right,
                    ),
                pixels@.len() == row * width + column,
                forall|r: int, c: int|
                    0 <= r < row && 0 <= c < width ==> pixels@[r * width + c] == band_pixel_color(
                        bounds,
                        c,
                        r,
                        upper_left,
                        lower_right,
                    ),
                forall|c: int|
                    0 <= c < column ==> pixels@[row * width + c] == band_pixel_color(
                        bounds,
                        c,
                        row as int,
                        upper_left,
                        lower_right,
                    ),
            decreases width - column,
        {
            let byte = bands[row][column];
            pixels.push(byte);
            proof {
                assert forall|r: int, c: int|
                    0 <= r < row && 0 <= c < width implies #[trigger] pixels@[r * width + c]
                    == band_pixel_color(bounds, c, r, upper_left, lower_right) by {
                    assert(r * width + c < row * width + column) by (nonlinear_arith)
                        requires
                            0 <= r < row,
                            0 <= c < width,
                            0 <= column,
                    ;
                }
            }
            column = column + 1;
        }
        row = row + 1;
        proof {
            assert(row * width == (row - 1) * width + width) by (nonlinear_arith);
        }
    }
    proof {
        assert(height * width == width * height) by (nonlinear_arith);
    }
    pixels
}

} // verus!
