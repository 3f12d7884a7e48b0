//! Mapping pixel coordinates onto the viewport of the complex plane.

use vstd::prelude::*;

use crate::complex::Complex;
use crate::float_ops::{
    f64_add, f64_div, f64_mul, f64_of_usize, f64_sub, fadd, fdiv, fmul, fsub, f64_from_usize,
};

verus! {

/// The point of the plane that pixel `(column, row)` of an image with the
/// given pixel bounds depicts: linear interpolation on each axis between
/// the corners, with the imaginary axis flipped because pixel rows grow
/// downward while the imaginary axis grows upward. All arithmetic is
/// double arithmetic on bit patterns.
pub open spec fn pixel_to_point_spec(
    bounds: (usize, usize),
    pixel: (usize, usize),
    upper_left: Complex,
    lower_right: Complex,
) -> Complex {
    (Complex {
        re: f64_add(
            upper_left.re,
            f64_mul(
                f64_div(f64_of_usize(pixel.0), f64_of_usize(bounds.0)),
                f64_sub(lower_right.re, upper_left.re),
            ),
        ),
        im: f64_sub(
            upper_left.im,
            f64_mul(
                f64_div(f64_of_usize(pixel.1), f64_of_usize(bounds.1)),
                f64_sub(upper_left.im, lower_right.im),
            ),
        ),
    })
}

/// Given the pixel bounds of an image and the plane points of its
/// upper-left and lower-right corners, return the plane point of the pixel
/// at `(column, row)`. The pixel may lie on or past the right and bottom
/// edges: the mapping is total, and the corner computation of the band
/// dispatcher uses it one past the edge.
pub fn pixel_to_point(
    bounds: (usize, usize),
    pixel: (usize, usize),
    upper_left: Complex,
    lower_right: Complex,
) -> (r: Complex)
    requires
        bounds.0 > 0,
        bounds.1 > 0,
    ensures
        r == pixel_to_point_spec(bounds, pixel, upper_left, lower_right),
{
    let width = fsub(lower_right.re, upper_left.re);
    let height = fsub(upper_left.im, lower_right.im);
    let re = fadd(
        upper_left.re,
        fmul(fdiv(f64_from_usize(pixel.0), f64_from_usize(bounds.0)), width),
    );
    let im = fsub(
        upper_left.im,
        fmul(fdiv(f64_from_usize(pixel.1), f64_from_usize(bounds.1)), height),
    );
    Complex { re, im }
}

} // verus!
