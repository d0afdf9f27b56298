//! Solid-colour raster generation.
//!
//! The library decodes a hexadecimal colour token into an RGBA colour,
//! validates image dimensions, fills a pixel buffer with one colour, and
//! resolves the output file name. Encoding and writing the image file is
//! left to the caller.

pub mod color;
pub mod dims;
pub mod error;
pub mod raster;
