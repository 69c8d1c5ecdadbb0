//! The ways in which a stage of the pipeline can fail.

use vstd::prelude::*;

verus! {

/// Why a byte buffer did not become a pixel grid.
#[derive(Debug, Clone, PartialEq, Eq)]
pub enum DecodeError {
    /// The codec did not accept the bytes: no known format, a corrupt stream or
    /// a truncated one. `detail` is the codec's own account of the failure.
    Unreadable { detail: String },
    /// A raster whose sample count is not `width * height`.
    Inconsistent { width: u32, height: u32, samples: usize },
}

/// Why a tensor of the requested shape could not be made.
#[derive(Debug, Clone, Copy, PartialEq, Eq, Structural)]
pub enum ShapeError {
    /// The requested side length is zero.
    NonPositiveTarget,
    /// The requested size needs buffers larger than an allocation can be.
    TooLarge,
    /// The number of samples is not the product of the dimensions.
    Mismatch,
}

/// Why no class scores could be taken from what the engine returned.
#[derive(Debug, Clone, Copy, PartialEq, Eq, Structural)]
pub enum ExtractionError {
    /// The engine returned no output at all.
    Missing,
    /// The engine returned outputs, but none of shape `(1, C)`.
    UnexpectedShape,
}

/// The top-ranked class is not the expected one. Reported, never fatal.
#[derive(Debug, Clone, Copy, PartialEq, Eq, Structural)]
pub struct PredictionMismatch {
    /// The label the caller expected.
    pub expected: usize,
    /// The class ranked first, if there is any class at all.
    pub predicted: Option<usize>,
}

/// Failure of the stages that run before the engine.
#[derive(Debug, Clone, PartialEq, Eq)]
pub enum PreprocessError {
    Decode(DecodeError),
    Shape(ShapeError),
}

} // verus!
