use mandelbrot::{parse_complex, parse_pair, parse_usize, Complex};

#[test]
fn parses_dimension_pair() {
    assert_eq!(parse_pair("100x200", 'x'), Some((100, 200)));
    assert_eq!(parse_pair("1000x750", 'x'), Some((1000, 750)));
}

#[test]
fn parses_pair_with_other_separator() {
    assert_eq!(parse_pair("10,20", ','), Some((10, 20)));
}

#[test]
fn parses_pair_with_leading_plus_and_zeros() {
    assert_eq!(parse_pair("+10x0020", 'x'), Some((10, 20)));
    assert_eq!(parse_pair("0x0", 'x'), Some((0, 0)));
}

#[test]
fn rejects_dimensions_without_separator() {
    assert_eq!(parse_pair("100", 'x'), None);
    assert_eq!(parse_pair("", 'x'), None);
}

#[test]
fn rejects_nonnumeric_dimension_side() {
    assert_eq!(parse_pair("ax100", 'x'), None);
    assert_eq!(parse_pair("100xb", 'x'), None);
    assert_eq!(parse_pair("10.5x20", 'x'), None);
    assert_eq!(parse_pair("-10x20", 'x'), None);
}

#[test]
fn rejects_empty_dimension_side() {
    assert_eq!(parse_pair("x100", 'x'), None);
    assert_eq!(parse_pair("100x", 'x'), None);
    assert_eq!(parse_pair("x", 'x'), None);
    assert_eq!(parse_pair("+x10", 'x'), None);
}

#[test]
fn splits_at_first_separator_only() {
    // the text right of the first separator must itself be a numeral
    assert_eq!(parse_pair("10x20x30", 'x'), None);
    assert_eq!(parse_pair("10xx20", 'x'), None);
}

#[test]
fn rejects_dimension_overflow() {
    // one more digit than usize::MAX has
    assert_eq!(parse_pair("184467440737095516160x1", 'x'), None);
    assert_eq!(parse_usize("99999999999999999999999999"), None);
}

#[test]
fn parses_usize_numerals() {
    assert_eq!(parse_usize("0"), Some(0));
    assert_eq!(parse_usize("007"), Some(7));
    assert_eq!(parse_usize("+42"), Some(42));
    assert_eq!(parse_usize("18446744073709551615"), Some(usize::MAX));
}

#[test]
fn rejects_bad_usize_numerals() {
    assert_eq!(parse_usize(""), None);
    assert_eq!(parse_usize("+"), None);
    assert_eq!(parse_usize("18446744073709551616"), None);
    assert_eq!(parse_usize(" 1"), None);
    assert_eq!(parse_usize("1 "), None);
}

#[test]
fn parses_complex_point() {
    let c = parse_complex("-1.20,0.35").unwrap();
    assert_eq!(c.re, (-1.20f64).to_bits());
    assert_eq!(c.im, (0.35f64).to_bits());
    assert_eq!(
        parse_complex("-1,0.20"),
        Some(Complex { re: (-1.0f64).to_bits(), im: (0.20f64).to_bits() })
    );
}

#[test]
fn parses_complex_like_std() {
    // std's double parsing accepts exponents and infinities
    let c = parse_complex("1e3,inf").unwrap();
    assert_eq!(c.re, (1000.0f64).to_bits());
    assert_eq!(c.im, f64::INFINITY.to_bits());
}

#[test]
fn rejects_bad_complex_points() {
    assert_eq!(parse_complex("1.0"), None);
    assert_eq!(parse_complex(",0.5"), None);
    assert_eq!(parse_complex("0.5,"), None);
    assert_eq!(parse_complex("a,1"), None);
    assert_eq!(parse_complex("1.0,2.0,3.0"), None);
    assert_eq!(parse_complex(""), None);
}

#[test]
fn rejects_nonascii_digits() {
    assert_eq!(parse_pair("10x²0", 'x'), None);
    assert_eq!(parse_usize("٤٢"), None);
}
