use vstd::prelude::*;

use crate::array::copy_values;
use crate::array::lemma_dims_product_single;
use crate::array::Array;
use crate::error::TensorError;

verus! {

/// A layer that keeps every value in order and collapses the shape to a
/// single axis. It has no trainable parameters and accepts any input.
pub struct Flatten;

impl Flatten {
    pub fn new() -> Flatten {
        Flatten
    }

    /// Copies the whole input buffer unchanged; the output shape is one
    /// axis as long as the input's total element count.
    pub fn execute_operation(&self, input: &Array) -> (r: Result<Array, TensorError>)
        ensures
            r matches Ok(a) && a.data@ == input.data@ && a.dimensions@ == seq![
                input.data@.len() as usize,
            ] && a.wf(),
    {
        let data = copy_values(&input.data);
        let n = data.len();
        let mut dimensions: Vec<usize> = Vec::new();
        dimensions.push(n);
        proof {
            assert(dimensions@ =~= seq![n]);
            lemma_dims_product_single(n);
        }
        Ok(Array { data, dimensions })
    }

    /// A flatten layer owns no trainable scalar values.
    pub fn count_parameters(&self) -> (r: usize)
        ensures
            r == 0,
    {
        0
    }
}

} // verus!
