use vstd::prelude::*;

verus! {

/// A local validation failure of one tensor operation.
#[derive(Clone, Copy, Debug, PartialEq, Eq, Structural)]
pub enum TensorError {
    /// The product of a shape descriptor does not equal the buffer length.
    ShapeMismatch,
    /// Weights, bias and input lengths are not commensurate.
    DimensionMismatch,
    /// An accumulated value left the representable `i64` range.
    Overflow,
}

/// A pipeline run that aborted: the index of the operator that failed,
/// and how it failed.
#[derive(Clone, Copy, Debug, PartialEq, Eq, Structural)]
pub struct InferenceError {
    pub operator_index: usize,
    pub kind: TensorError,
}

} // verus!
