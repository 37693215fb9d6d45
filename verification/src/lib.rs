//! Verified core of a Monte Carlo path tracer.
//!
//! The stochastic shading arithmetic runs on IEEE-754 floats outside this
//! crate; what is verified here is everything the renderer decides and
//! assembles over plain values: the derivation of the image dimensions from
//! the configured aspect ratio, the row-major pixel buffer that the parallel
//! workers fill, the bounce-budget decision of the radiance walk, and the
//! plain-text image encoding that the finished buffer is written out in.

pub mod camera;
pub mod image;
pub mod ppm;
pub mod trace;
