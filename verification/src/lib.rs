//! Scalar intensities to packed four-channel colours, one value at a time or
//! in bulk over a pair of growable byte regions.
//!
//! Scalars are IEEE 754 binary32 values carried by their bit pattern, so that
//! every conversion is integer arithmetic with a contract over exact values.

pub mod batch;
pub mod codec;
pub mod colormap;
pub mod convert;
pub mod exchange;
pub mod rgba;
pub mod rounding;
pub mod scalar;

pub use colormap::float2rgba_simple;
pub use convert::{FloatToRgba, Normalize, NormalizedConverter};
pub use rgba::Rgba;
pub use scalar::Scalar;
