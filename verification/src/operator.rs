use vstd::prelude::*;

use crate::array::Array;
use crate::error::TensorError;
use crate::flatten::Flatten;
use crate::linear::linear_fits;
use crate::linear::linear_output;
use crate::linear::LinearCombination;
use crate::relu::relu_seq;
use crate::relu::ReLu;

verus! {

/// One layer of a pipeline: the closed set of supported layer kinds,
/// matched exhaustively at execution time.
pub enum Operator {
    Flatten(Flatten),
    ReLu(ReLu),
    LinearCombination(LinearCombination),
}

/// What one layer turns an input buffer into: the output buffer, or the
/// failure it reports. Only the affine layer can fail — on an input length
/// that does not match its weights, or on an accumulation that overflows.
pub open spec fn operator_output(op: Operator, data: Seq<i64>) -> Result<Seq<i64>, TensorError> {
    match op {
        Operator::Flatten(_) => Ok(data),
        Operator::ReLu(_) => Ok(relu_seq(data)),
        Operator::LinearCombination(l) => if data.len() * l.bias_seq().len()
            == l.weights_seq().len() {
            if linear_fits(data, l.weights_seq(), l.bias_seq()) {
                Ok(linear_output(data, l.weights_seq(), l.bias_seq()))
            } else {
                Err(TensorError::Overflow)
            }
        } else {
            Err(TensorError::DimensionMismatch)
        },
    }
}

/// How many trainable scalars one layer owns.
pub open spec fn operator_params(op: Operator) -> int {
    match op {
        Operator::LinearCombination(l) => l.weights_seq().len() + l.bias_seq().len() as int,
        _ => 0,
    }
}

impl Operator {
    /// Applies the layer to one input tensor, producing a fresh output
    /// tensor whose shape is a single axis.
    pub fn execute_operation(&self, input: &Array) -> (r: Result<Array, TensorError>)
        ensures
            match r {
                Ok(a) => operator_output(*self, input.data@) == Ok::<Seq<i64>, TensorError>(
                    a.data@,
                ) && a.dimensions@ == seq![a.data@.len() as usize] && a.wf(),
                Err(e) => operator_output(*self, input.data@) == Err::<Seq<i64>, TensorError>(e),
            },
    {
        match self {
            Operator::Flatten(op) => op.execute_operation(input),
            Operator::ReLu(op) => op.execute_operation(input),
            Operator::LinearCombination(op) => op.execute_operation(input),
        }
    }

    /// How many trainable scalars the layer owns; side-effect-free.
    pub fn count_parameters(&self) -> (r: usize)
        requires
            operator_params(*self) <= usize::MAX,
        ensures
            r as int == operator_params(*self),
    {
        match self {
            Operator::Flatten(op) => op.count_parameters(),
            Operator::ReLu(op) => op.count_parameters(),
            Operator::LinearCombination(op) => op.count_parameters(),
        }
    }
}

} // verus!
