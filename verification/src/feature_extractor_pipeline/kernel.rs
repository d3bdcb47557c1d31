//! Convolution-kernel modelling: the Gaussian kernel bank and the fused
//! sampling/accumulation code generator.

use vstd::prelude::*;

pub mod combined_filters;
pub mod gaussian_blur;

verus! {

/// An integer (x, y, z) offset of a sample position relative to the pixel
/// under evaluation.
pub struct CenterOffset {
    pub x: i32,
    pub y: i32,
    pub z: i32,
}

} // verus!
