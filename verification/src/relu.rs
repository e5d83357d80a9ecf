use vstd::prelude::*;

use crate::array::lemma_dims_product_single;
use crate::array::Array;
use crate::error::TensorError;

verus! {

/// The rectifier applied to one value: negative values become zero, the
/// rest pass through.
pub open spec fn relu_val(x: i64) -> i64 {
    if x < 0 {
        0i64
    } else {
        x
    }
}

/// The rectifier applied to every value of a buffer, in order.
pub open spec fn relu_seq(s: Seq<i64>) -> Seq<i64> {
    Seq::new(s.len(), |i: int| relu_val(s[i]))
}

/// Applying the rectifier twice gives the same buffer as applying it once.
pub proof fn lemma_relu_idempotent(s: Seq<i64>)
    ensures
        relu_seq(relu_seq(s)) == relu_seq(s),
{
    assert(relu_seq(relu_seq(s)) =~= relu_seq(s));
}

/// A layer that applies `max(x, 0)` element-wise. It has no trainable
/// parameters and accepts any input.
pub struct ReLu;

impl ReLu {
    pub fn new() -> ReLu {
        ReLu
    }

    /// Rectifies every input value; the output shape is one axis as long
    /// as the input's total element count.
    pub fn execute_operation(&self, input: &Array) -> (r: Result<Array, TensorError>)
        ensures
            r matches Ok(a) && a.data@ == relu_seq(input.data@) && a.dimensions@ == seq![
                input.data@.len() as usize,
            ] && a.wf(),
    {
        let mut data: Vec<i64> = Vec::new();
        let mut i: usize = 0;
        while i < input.data.len()
            invariant
                i <= input.data@.len(),
                data@.len() == i,
                forall|k: int| 0 <= k < i ==> data@[k] == relu_val(input.data@[k]),
            decreases input.data@.len() - i,
        {
            let x = input.data[i];
            let y: i64 = if x < 0 {
                0
            } else {
                x
            };
            data.push(y);
            i = i + 1;
        }
        proof {
            assert(data@ =~= relu_seq(input.data@));
        }
        let n = data.len();
        let mut dimensions: Vec<usize> = Vec::new();
        dimensions.push(n);
        proof {
            assert(dimensions@ =~= seq![n]);
            lemma_dims_product_single(n);
        }
        Ok(Array { data, dimensions })
    }

    /// A rectifier layer owns no trainable scalar values.
    pub fn count_parameters(&self) -> (r: usize)
        ensures
            r == 0,
    {
        0
    }
}

} // verus!
