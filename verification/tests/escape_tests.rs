use mandelbrot::{escape_time, Complex};

fn c(re: f64, im: f64) -> Complex {
    Complex { re: re.to_bits(), im: im.to_bits() }
}

/// The escape-time loop recomputed directly on doubles, mirroring the
/// complex product and sum formulas the library delegates to `num`.
fn oracle_escape_time(re: f64, im: f64, limit: usize) -> Option<usize> {
    let mut zr = 0.0f64;
    let mut zi = 0.0f64;
    let mut i = 0;
    while i < limit {
        let pr = zr * zr - zi * zi;
        let pi = zr * zi + zi * zr;
        zr = pr + re;
        zi = pi + im;
        i += 1;
        if zr * zr + zi * zi > 4.0 {
            return Some(i);
        }
    }
    None
}

#[test]
fn origin_never_escapes() {
    // 0 is a fixed point of z*z + c for c = 0
    assert_eq!(escape_time(c(0.0, 0.0), 1), None);
    assert_eq!(escape_time(c(0.0, 0.0), 5), None);
    assert_eq!(escape_time(c(0.0, 0.0), 255), None);
}

#[test]
fn far_point_escapes_on_first_iteration() {
    // |4 + 0i| already exceeds the escape radius
    assert_eq!(escape_time(c(4.0, 0.0), 1), Some(1));
    assert_eq!(escape_time(c(4.0, 0.0), 2), Some(1));
    assert_eq!(escape_time(c(4.0, 0.0), 255), Some(1));
}

#[test]
fn zero_budget_reports_no_escape() {
    assert_eq!(escape_time(c(4.0, 0.0), 0), None);
}

#[test]
fn escape_count_is_stable_under_larger_budgets() {
    // c = 1: the orbit runs 0, 1, 2, 5, ... and |2|^2 = 4 is not yet past
    // the threshold, so the count is 3
    assert_eq!(escape_time(c(1.0, 0.0), 2), None);
    assert_eq!(escape_time(c(1.0, 0.0), 3), Some(3));
    assert_eq!(escape_time(c(1.0, 0.0), 4), Some(3));
    assert_eq!(escape_time(c(1.0, 0.0), 255), Some(3));
}

#[test]
fn interior_point_never_escapes() {
    assert_eq!(escape_time(c(-1.0, 0.0), 255), None);
    assert_eq!(escape_time(c(0.25, 0.0), 255), None);
}

#[test]
fn escape_matches_double_arithmetic_oracle() {
    let samples = [
        (0.0, 0.0),
        (1.0, 0.0),
        (-1.0, 0.0),
        (0.3, 0.6),
        (-0.75, 0.1),
        (-1.20, 0.35),
        (-1.0, 0.20),
        (2.0, 2.0),
        (0.25, -0.0001),
        (-2.0, 0.0),
    ];
    for &(re, im) in samples.iter() {
        for &limit in [1usize, 7, 64, 255].iter() {
            assert_eq!(
                escape_time(c(re, im), limit),
                oracle_escape_time(re, im, limit),
                "escape_time differs from the double oracle at c = {}+{}i, limit {}",
                re,
                im,
                limit
            );
        }
    }
}
