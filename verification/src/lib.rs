//! Compiles a bank of Gaussian convolution kernels and a decision-tree
//! classifier into the source text of a single fused WGSL compute kernel,
//! and models the submit/map/readback protocol needed to run it.

pub mod decision_tree;
pub mod error;
pub mod feature_extractor_pipeline;
pub mod textfmt;
pub mod util;
pub mod wgsl;
