//! The failure values the library surfaces: configuration errors caught
//! before any device work, parse errors from the classifier graph, and the
//! one execution error of the readback path.

use vstd::prelude::*;

use crate::util::Extent3d;

verus! {

/// A configuration error: reported before any accelerator work is issued.
#[derive(PartialEq, Eq, Structural, Clone, Copy, Debug)]
pub enum ConfigError {
    /// A kernel's truncated window sum fell more than the tolerance short
    /// of one: its radius is too small for its sigma.
    KernelNotNormalized,
    /// A kernel was handed a weight table whose length is not the square of
    /// its window side.
    WrongWeightCount,
    /// A kernel was given a non-positive sigma or an oversized radius.
    BadKernelShape,
    /// A kernel's weight table is not symmetric under point reflection and
    /// transposition of the window, as a Gaussian table must be.
    AsymmetricKernel,
    /// The forest references a feature index outside the kernel bank's
    /// 3-channel coverage.
    FeatureIndexOutOfRange { highest: usize, num_kernels: usize },
    /// The kernel bank is empty: there is nothing to sample.
    EmptyKernelBank,
    /// The kernel bank holds more kernels than one interleaved weight buffer
    /// can index.
    OversizedKernelBank,
    /// An image extent does not match the extent the pipeline was built for.
    ExtentMismatch { expected: Extent3d, found: Extent3d },
}

/// A parse error from the classifier-graph description.
#[derive(PartialEq, Eq, Structural, Clone, Copy, Debug)]
pub enum ParseError {
    /// The text does not start with a directed-graph header.
    NotDirectedGraph,
    /// The scanner could not recognise the statement at this byte offset.
    BadSyntax { position: usize },
    /// A number was empty, oversized, or malformed, at this byte offset.
    BadNumber { position: usize },
    /// A node statement carries no label attribute.
    MissingLabel { node_id: u32 },
    /// No line of a node's label matches the pattern its role requires.
    UnrecognizedLabel { node_id: u32 },
    /// An edge references a node id that was never declared.
    MissingNode { node_id: u32 },
    /// A decision node does not have exactly two outgoing edges.
    WrongEdgeCount { node_id: u32 },
    /// Following edges from the root ran longer than the node count allows:
    /// the graph cannot be a tree.
    CyclicGraph,
}

/// An execution error: recoverable by retrying the call.
#[derive(PartialEq, Eq, Structural, Clone, Copy, Debug)]
pub enum ReadbackError {
    /// The mapped byte range is not a whole number of pixel records.
    UnexpectedByteCount { found: usize },
}

} // verus!
