//! Scalar double-precision operations, carried as IEEE-754 bit patterns.
//!
//! The verified code never holds a floating-point value directly: every
//! double travels as the `u64` bit pattern of its IEEE-754 encoding. Each
//! arithmetic operation is named by an uninterpreted spec function — the
//! operations are deterministic functions of their operands' bit patterns —
//! and performed by a small trusted wrapper around the primitive operation.
//! Inside the wrapper bodies, `bytemuck::cast` reinterprets a bit pattern
//! as the double it encodes (the two types have the same size, so the cast
//! cannot fail), `num`'s `Complex64` constructor anchors the cast's result
//! type, and `to_bits` turns the result back into its bit pattern.

use vstd::prelude::*;

verus! {

/// Bit pattern of the double `4.0`, the squared escape radius: once
/// `|z|^2` exceeds this threshold the orbit is provably divergent.
pub const ESCAPE_THRESHOLD_BITS: u64 = 0x4010_0000_0000_0000;

/// Bit pattern of the double sum of the doubles with bit patterns `a`, `b`.
pub uninterp spec fn f64_add(a: u64, b: u64) -> u64;

/// Bit pattern of the double difference of the doubles `a` minus `b`.
pub uninterp spec fn f64_sub(a: u64, b: u64) -> u64;

/// Bit pattern of the double product of the doubles `a`, `b`.
pub uninterp spec fn f64_mul(a: u64, b: u64) -> u64;

/// Bit pattern of the double quotient of the doubles `a` over `b`.
pub uninterp spec fn f64_div(a: u64, b: u64) -> u64;

/// Whether the double with bit pattern `a` compares strictly greater than
/// the double with bit pattern `b`.
pub uninterp spec fn f64_gt(a: u64, b: u64) -> bool;

/// Bit pattern of `n` converted to the nearest double.
pub uninterp spec fn f64_of_usize(n: usize) -> u64;

/// What std's `FromStr` for the double type makes of the characters of `s`:
/// the bit pattern of the parsed value, or `None` where `s` is not a valid
/// decimal floating-point literal.
pub uninterp spec fn f64_of_decimal(s: Seq<char>) -> Option<u64>;

/// Relies on the primitive double addition (`Add` on the double type),
/// a deterministic function of the operands' bit patterns.
#[verifier::external_body]
pub(crate) fn fadd(a: u64, b: u64) -> (r: u64)
    ensures
        r == f64_add(a, b),
{
    let z = num::complex::Complex64::new(bytemuck::cast(a), bytemuck::cast(b));
    (z.re + z.im).to_bits()
}

/// Relies on the primitive double subtraction (`Sub` on the double type),
/// a deterministic function of the operands' bit patterns.
#[verifier::external_body]
pub(crate) fn fsub(a: u64, b: u64) -> (r: u64)
    ensures
        r == f64_sub(a, b),
{
    let z = num::complex::Complex64::new(bytemuck::cast(a), bytemuck::cast(b));
    (z.re - z.im).to_bits()
}

/// Relies on the primitive double multiplication (`Mul` on the double type),
/// a deterministic function of the operands' bit patterns.
#[verifier::external_body]
pub(crate) fn fmul(a: u64, b: u64) -> (r: u64)
    ensures
        r == f64_mul(a, b),
{
    let z = num::complex::Complex64::new(bytemuck::cast(a), bytemuck::cast(b));
    (z.re * z.im).to_bits()
}

/// Relies on the primitive double division (`Div` on the double type),
/// a deterministic function of the operands' bit patterns; a zero divisor
/// yields an infinity or NaN, never a panic.
#[verifier::external_body]
pub(crate) fn fdiv(a: u64, b: u64) -> (r: u64)
    ensures
        r == f64_div(a, b),
{
    let z = num::complex::Complex64::new(bytemuck::cast(a), bytemuck::cast(b));
    (z.re / z.im).to_bits()
}

/// Relies on the primitive double comparison (`PartialOrd` on the double
/// type), a deterministic function of the operands' bit patterns.
#[verifier::external_body]
pub(crate) fn fgt(a: u64, b: u64) -> (r: bool)
    ensures
        r == f64_gt(a, b),
{
    let z = num::complex::Complex64::new(bytemuck::cast(a), bytemuck::cast(b));
    z.re > z.im
}

/// Relies on `num`'s `FromPrimitive::from_usize` for `Complex64`, which
/// converts `n` with the primitive integer-to-double cast and never fails
/// for a `usize` argument.
#[verifier::external_body]
pub(crate) fn f64_from_usize(n: usize) -> (r: u64)
    ensures
        r == f64_of_usize(n),
{
    let z = num::traits::FromPrimitive::from_usize(n);
    let z: num::complex::Complex64 = z.unwrap();
    z.re.to_bits()
}

/// Relies on std's `FromStr` for the double type: the parse succeeds
/// exactly on the forms std documents (a decimal significand, an optional
/// exponent, `inf` and `NaN` spellings) and depends on the characters of
/// `s` alone.
#[verifier::external_body]
pub(crate) fn parse_f64(s: &str) -> (r: Option<u64>)
    ensures
        r == f64_of_decimal(s@),
{
    match s.parse() {
        Ok(x) => Some(num::complex::Complex64::new(x, x).re.to_bits()),
        Err(_) => None,
    }
}

} // verus!
