//! Symbols, images, and the ways between them.

pub mod decoder;
pub mod encoder;
pub mod matrix;
pub mod output;
pub mod raster;
