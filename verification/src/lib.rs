//! A verified core for rasterising the Mandelbrot set.
//!
//! The library has two components. The buffer manager ([`buffer`]) hands out
//! and reclaims the byte buffers that rendered images live in. The renderer
//! ([`render`], with its colour helper in [`color`]) fills such a buffer with
//! RGBA8 pixels, one grayscale intensity per pixel, derived from the number
//! of escape-time iterations the pixel's point survived.
//!
//! The escape-time iteration itself runs in single-precision floating point
//! and therefore lives outside the verified library; the renderer here takes
//! the per-pixel iteration counts as input and is proved to place every byte
//! of the image.

pub mod buffer;
pub mod color;
pub mod render;
