//! Escape-time fractal rendering core.
//!
//! The library renders Mandelbrot and Julia fractals into RGBA8 bitmaps.  A
//! tagged coordinate-space model (`Point`, `Viewport`) keeps screen pixels,
//! the Mandelbrot plane and the Julia plane apart at compile time; an exact
//! rational-number type carries all coordinate arithmetic, so every transform
//! and every escape-time step is stated and proved without rounding.  A
//! one-entry cache memoizes the last rendered request.

pub mod error;
pub mod fractals;
pub mod point;
pub mod rational;
pub mod render;
pub mod singlecache;
pub mod viewport;
