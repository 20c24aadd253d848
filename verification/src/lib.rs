//! Numeric kernel for the early stages of a software ray tracer:
//! homogeneous-coordinate tuples, colors, square matrices, and a pixel
//! raster that renders to the plain-text P3 image format.
//!
//! All arithmetic is carried out on an exact fixed-point scalar type, so
//! every operation has a precise contract; the only operations left to a
//! host binary are the irrational ones (vector magnitude and
//! normalization), which no exact scalar can represent.

pub mod canvas;
pub mod color;
pub mod fixed;
pub mod matrix;
pub mod ppm;
pub mod sums;
pub mod tuples;
