//! Grayscale escape-time rendering of the Mandelbrot set.
//!
//! The floating-point evaluation of a point belongs to the caller. This library
//! holds what is decided around it: when a configuration is acceptable, how the
//! iteration proceeds and ends, what intensity a smooth iteration count gets, and
//! how the pixels are laid out in the output.

pub mod binary64;
pub mod color;
pub mod escape;
pub mod settings;
pub mod grid;
pub mod render;
pub mod imaging;
