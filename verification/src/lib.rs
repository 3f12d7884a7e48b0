//! A verified Mandelbrot-set renderer.
//!
//! The library maps pixels of a bounded image onto a viewport of the
//! complex plane, runs the bounded escape-time iteration `z <- z*z + c` on
//! every point, and fills a row-major grayscale byte buffer, band by band.
//! Complex numbers are carried as the IEEE-754 bit patterns of their two
//! double components, so the coordinate mapping, the escape loop, the
//! buffer filling and the band partitioning are verified, while each
//! individual floating-point operation is named and delegated to `num` and
//! to the primitive operations.

pub mod complex;
pub mod dispatch;
pub mod escape;
pub mod float_ops;
pub mod mapper;
pub mod parse;
pub mod render;

pub use complex::Complex;
pub use dispatch::multi_threads_render;
pub use dispatch::render_row_band;
pub use escape::escape_time;
pub use mapper::pixel_to_point;
pub use parse::parse_complex;
pub use parse::parse_pair;
pub use parse::parse_usize;
pub use render::render;
pub use render::ITERATION_LIMIT;
