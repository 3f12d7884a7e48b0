use mandelbrot::{
    escape_time, multi_threads_render, pixel_to_point, render, render_row_band, Complex,
    ITERATION_LIMIT,
};

fn c(re: f64, im: f64) -> Complex {
    Complex { re: re.to_bits(), im: im.to_bits() }
}

fn full_render(bounds: (usize, usize), ul: Complex, lr: Complex) -> Vec<u8> {
    let mut pixels = vec![0u8; bounds.0 * bounds.1];
    render(&mut pixels, bounds, ul, lr);
    pixels
}

/// Split the image into bands of `band_height` rows (the last band may be
/// shorter), derive each band's corners through the coordinate mapper, and
/// render every band as a standalone image.
fn banded_render(
    bounds: (usize, usize),
    ul: Complex,
    lr: Complex,
    band_height: usize,
) -> Vec<u8> {
    let mut pixels = Vec::new();
    let mut top = 0;
    while top < bounds.1 {
        let height = band_height.min(bounds.1 - top);
        let band_ul = pixel_to_point(bounds, (0, top), ul, lr);
        let band_lr = pixel_to_point(bounds, (bounds.0, top + height), ul, lr);
        let mut band = vec![0u8; bounds.0 * height];
        render(&mut band, (bounds.0, height), band_ul, band_lr);
        pixels.extend_from_slice(&band);
        top += height;
    }
    pixels
}

#[test]
fn reference_scenario() {
    let bounds = (100usize, 100usize);
    let ul = c(-1.20, 0.35);
    let lr = c(-1.0, 0.20);
    let pixels = full_render(bounds, ul, lr);
    assert_eq!(pixels.len(), 10000);
    // every byte lies in 0..=255 by type; the gradient must use the range
    assert!(pixels.iter().any(|&b| b > 0));
    let corner_point = pixel_to_point(bounds, (0, 0), ul, lr);
    let expected = match escape_time(corner_point, ITERATION_LIMIT) {
        None => 0,
        Some(count) => 255 - count as u8,
    };
    assert_eq!(pixels[0], expected);
    // the corner lies outside the set, so the byte is a real gray value
    assert_ne!(pixels[0], 0);
}

#[test]
fn one_pass_equals_banded_passes() {
    let bounds = (40usize, 16usize);
    for &(ul, lr) in
        [(c(-1.20, 0.35), c(-1.0, 0.20)), (c(-1.0, 1.0), c(1.0, -1.0))].iter()
    {
        let full = full_render(bounds, ul, lr);
        for &band_height in [1usize, bounds.1 / 2, bounds.1].iter() {
            let banded = banded_render(bounds, ul, lr, band_height);
            assert_eq!(
                full, banded,
                "banded render with band height {} differs",
                band_height
            );
        }
    }
}

#[test]
fn parallel_render_equals_one_pass() {
    let bounds = (64usize, 24usize);
    let ul = c(-1.20, 0.35);
    let lr = c(-1.0, 0.20);
    let full = full_render(bounds, ul, lr);
    let parallel = multi_threads_render(bounds, ul, lr);
    assert_eq!(full, parallel);
}

#[test]
fn row_band_matches_its_rows() {
    let bounds = (33usize, 9usize);
    let ul = c(-1.0, 1.0);
    let lr = c(1.0, -1.0);
    let parallel = multi_threads_render(bounds, ul, lr);
    for top in 0..bounds.1 {
        let band = render_row_band(bounds, top, ul, lr);
        assert_eq!(band.len(), bounds.0);
        assert_eq!(&parallel[top * bounds.0..(top + 1) * bounds.0], &band[..]);
    }
}

#[test]
fn gray_values_follow_the_escape_counts() {
    let bounds = (8usize, 8usize);
    let ul = c(-2.0, 2.0);
    let lr = c(2.0, -2.0);
    let pixels = full_render(bounds, ul, lr);
    for row in 0..bounds.1 {
        for column in 0..bounds.0 {
            let point = pixel_to_point(bounds, (column, row), ul, lr);
            let expected = match escape_time(point, ITERATION_LIMIT) {
                None => 0,
                Some(count) => 255 - count as u8,
            };
            assert_eq!(pixels[row * bounds.0 + column], expected);
        }
    }
}

#[test]
fn renders_single_pixel_image() {
    let bounds = (1usize, 1usize);
    let ul = c(-1.20, 0.35);
    let lr = c(-1.0, 0.20);
    let full = full_render(bounds, ul, lr);
    assert_eq!(full.len(), 1);
    let parallel = multi_threads_render(bounds, ul, lr);
    assert_eq!(full, parallel);
}
