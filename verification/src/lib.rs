//! Deep-zoom escape-time fractal engine.
//!
//! The numeric core of an interactive Mandelbrot/Julia explorer: exact
//! fixed-point scalars standing in for machine floats, arbitrary-precision
//! reals for the deep-zoom camera, a reference-orbit computer, the
//! perturbation render kernel with rebasing, escape-statistic reductions,
//! a per-pixel render-parameter cache, and the camera/interaction state
//! machine that drives them.

pub mod bigint;
pub mod bigreal;
pub mod cache;
pub mod camera;
pub mod complex;
pub mod controller;
pub mod fx;
pub mod iterations;
pub mod kernel;
pub mod marker;
pub mod orbit;
pub mod params;
pub mod proximity;
pub mod styles;
