//! Escape-time rendering of the Mandelbrot set over an abstract number type.
//!
//! The engine is written once against [`scalar::Scalar`], a small capability
//! interface for real arithmetic, so that the same verified code runs on
//! machine numbers, on arbitrary-precision numbers or on the exact
//! fixed-point numbers of [`fixed`].
//!
//! - [`canvas`]: the viewport, which maps a pixel grid to the complex plane;
//! - [`escape`]: the iteration `z <- z*z + c` and its escape time;
//! - [`perturbation`]: orbits derived from one reference orbit;
//! - [`evaluate`]: the three ways to evaluate a whole frame, pixel by pixel
//!   and in parallel;
//! - [`color`]: from iteration counts to colours and to an image;
//! - [`control`]: the interactive session around all of these;
//! - [`exact`]: what holds exactly when the numbers are fixed-point.
pub mod scalar;
pub mod fixed;
pub mod escape;
pub mod canvas;
pub mod perturbation;
pub mod evaluate;
pub mod color;
pub mod control;
pub mod exact;
