//! Valid-mode convolution of grayscale rasters with a square kernel of
//! integer weights, followed by a rescale of the result onto `0..=255` by its
//! own minimum and maximum.
//!
//! Weights are fixed-point integers: the rescale is unchanged when every
//! weight is multiplied by the same positive factor, so the unit of a weight
//! is the caller's choice.
pub mod convolve;
pub mod laws;
pub mod loader;
pub mod normalize;
pub mod raster;
pub mod settings;
