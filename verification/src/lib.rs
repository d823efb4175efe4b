//! The rules of a small ray tracer that need no floating point: which hit
//! a sphere reports, RGB colours, a row-major image buffer that is filled
//! one traced pixel at a time, and the binary pixel-map encoding of a
//! finished image.

pub mod color;
pub mod image;
pub mod ppm;
pub mod sphere;
