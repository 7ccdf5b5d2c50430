//! Per-pixel and neighborhood-window raster transforms: grayscale reduction,
//! box-blur convolution, and gradient-magnitude edge detection over an
//! in-memory grid of 8-bit RGBA pixels.

pub mod convolution;
pub mod edge;
pub mod grayscale;
pub mod kernel;
pub mod laws;
pub mod pipeline;
pub mod pixel;
