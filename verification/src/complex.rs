//! Complex points on the plane, carried as pairs of IEEE-754 bit patterns.
//!
//! The arithmetic itself — componentwise addition, the product formula and
//! the squared norm — is `num`'s; each operation is named by an
//! uninterpreted spec function of the operands' bit patterns and performed
//! by a trusted wrapper around the `num` call.

use vstd::prelude::*;

verus! {

/// A point on the complex plane: the bit patterns of the real and the
/// imaginary component, each the IEEE-754 encoding of a double.
#[derive(Clone, Copy, Debug, PartialEq, Eq, Structural)]
pub struct Complex {
    pub re: u64,
    pub im: u64,
}

/// Bit patterns of the complex sum of the points with component bit
/// patterns `a`, `b`.
pub uninterp spec fn complex_add_bits(a: (u64, u64), b: (u64, u64)) -> (u64, u64);

/// Bit patterns of the complex product of the points with component bit
/// patterns `a`, `b`.
pub uninterp spec fn complex_mul_bits(a: (u64, u64), b: (u64, u64)) -> (u64, u64);

/// Bit pattern of the squared norm `re^2 + im^2` of the point with
/// component bit patterns `z`.
pub uninterp spec fn complex_norm_sqr_bits(z: (u64, u64)) -> u64;

/// The origin, `0 + 0i`.
pub open spec fn c_zero() -> Complex {
    Complex { re: 0, im: 0 }
}

/// The complex sum of `a` and `b`, at the level of bit patterns.
pub open spec fn c_add(a: Complex, b: Complex) -> Complex {
    let r = complex_add_bits((a.re, a.im), (b.re, b.im));
    Complex { re: r.0, im: r.1 }
}

/// The complex product of `a` and `b`, at the level of bit patterns.
pub open spec fn c_mul(a: Complex, b: Complex) -> Complex {
    let r = complex_mul_bits((a.re, a.im), (b.re, b.im));
    Complex { re: r.0, im: r.1 }
}

/// The squared norm of `z`, at the level of bit patterns.
pub open spec fn c_norm_sqr(z: Complex) -> u64 {
    complex_norm_sqr_bits((z.re, z.im))
}

/// Relies on `num`'s `Add` for `Complex64`: the componentwise double sum,
/// a deterministic function of the operands' bit patterns.
#[verifier::external_body]
pub(crate) fn complex_add(a: Complex, b: Complex) -> (r: Complex)
    ensures
        (r.re, r.im) == complex_add_bits((a.re, a.im), (b.re, b.im)),
{
    let za = num::complex::Complex64::new(bytemuck::cast(a.re), bytemuck::cast(a.im));
    let zb = num::complex::Complex64::new(bytemuck::cast(b.re), bytemuck::cast(b.im));
    let z = za + zb;
    Complex { re: z.re.to_bits(), im: z.im.to_bits() }
}

/// Relies on `num`'s `Mul` for `Complex64`: the product
/// `(a.re*b.re - a.im*b.im) + (a.re*b.im + a.im*b.re)i` in double
/// arithmetic, a deterministic function of the operands' bit patterns.
#[verifier::external_body]
pub(crate) fn complex_mul(a: Complex, b: Complex) -> (r: Complex)
    ensures
        (r.re, r.im) == complex_mul_bits((a.re, a.im), (b.re, b.im)),
{
    let za = num::complex::Complex64::new(bytemuck::cast(a.re), bytemuck::cast(a.im));
    let zb = num::complex::Complex64::new(bytemuck::cast(b.re), bytemuck::cast(b.im));
    let z = za * zb;
    Complex { re: z.re.to_bits(), im: z.im.to_bits() }
}

/// Relies on `num`'s `Complex::norm_sqr`: `re*re + im*im` in double
/// arithmetic, a deterministic function of the operand's bit patterns.
#[verifier::external_body]
pub(crate) fn complex_norm_sqr(z: Complex) -> (r: u64)
    ensures
        r == complex_norm_sqr_bits((z.re, z.im)),
{
    let zz = num::complex::Complex64::new(bytemuck::cast(z.re), bytemuck::cast(z.im));
    zz.norm_sqr().to_bits()
}

} // verus!
