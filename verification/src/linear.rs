use vstd::prelude::*;

use crate::array::dims_product;
use crate::array::lemma_dims_product_single;
use crate::array::Array;
use crate::error::TensorError;

verus! {

/// Whether a mathematical value is representable as an `i64`.
pub open spec fn in_i64_range(x: int) -> bool {
    i64::MIN <= x <= i64::MAX
}

/// The first `k` terms of the affine accumulation for output column `j`:
/// the sum of `input[i] * weights[i, j]` for `i < k`, with the weight
/// matrix stored row-major at `cols` columns per row.
pub open spec fn dot_prefix(input: Seq<i64>, weights: Seq<i64>, cols: int, j: int, k: int) -> int
    decreases k,
{
    if k <= 0 {
        0
    } else {
        dot_prefix(input, weights, cols, j, k - 1) + input[k - 1] * weights[(k - 1) * cols + j]
    }
}

/// The finished value of output column `j`: the full dot product plus the
/// column's bias term.
pub open spec fn column_total(input: Seq<i64>, weights: Seq<i64>, bias: Seq<i64>, j: int) -> int {
    dot_prefix(input, weights, bias.len() as int, j, input.len() as int) + bias[j]
}

/// Whether every intermediate accumulation for output column `j` — each
/// partial sum and the biased total — stays representable as an `i64`.
pub open spec fn linear_fits_column(
    input: Seq<i64>,
    weights: Seq<i64>,
    bias: Seq<i64>,
    j: int,
) -> bool {
    &&& forall|k: int|
        1 <= k <= input.len() ==> in_i64_range(
            #[trigger] dot_prefix(input, weights, bias.len() as int, j, k),
        )
    &&& in_i64_range(column_total(input, weights, bias, j))
}

/// Whether the whole affine transform stays representable, column by column.
pub open spec fn linear_fits(input: Seq<i64>, weights: Seq<i64>, bias: Seq<i64>) -> bool {
    forall|j: int| 0 <= j < bias.len() ==> #[trigger] linear_fits_column(input, weights, bias, j)
}

/// The affine transform's output buffer: one value per bias entry.
pub open spec fn linear_output(input: Seq<i64>, weights: Seq<i64>, bias: Seq<i64>) -> Seq<i64> {
    Seq::new(bias.len(), |j: int| column_total(input, weights, bias, j) as i64)
}

/// An affine layer: `output[j] = bias[j] + sum_i input[i] * weights[i, j]`,
/// with the weight matrix stored row-major, one row per input element and
/// one column per bias entry.
pub struct LinearCombination {
    weights: Array,
    bias: Array,
}

impl LinearCombination {
    /// The flat row-major weight values.
    pub closed spec fn weights_seq(&self) -> Seq<i64> {
        self.weights.data@
    }

    /// The bias values, one per output column.
    pub closed spec fn bias_seq(&self) -> Seq<i64> {
        self.bias.data@
    }

    /// The construction invariant: both parameter tensors are well formed,
    /// the bias is a non-empty single axis, and the bias length divides the
    /// weights length evenly.
    pub closed spec fn wf(&self) -> bool {
        &&& self.weights.wf()
        &&& self.bias.wf()
        &&& self.bias.dimensions@ == seq![self.bias.data@.len() as usize]
        &&& self.bias.data@.len() > 0
        &&& self.weights.data@.len() as int % self.bias.data@.len() as int == 0
    }

    /// Validates the parameter tensors once: the weight shape must match the
    /// weight buffer, and the bias length must divide the weights length
    /// evenly into columns.
    pub fn new(weights: Vec<i64>, weights_dimensions: Vec<usize>, bias: Vec<i64>) -> (r: Result<
        LinearCombination,
        TensorError,
    >)
        ensures
            dims_product(weights_dimensions@) != weights@.len() as int ==> r == Err::<
                LinearCombination,
                TensorError,
            >(TensorError::ShapeMismatch),
            dims_product(weights_dimensions@) == weights@.len() as int && (bias@.len() == 0
                || weights@.len() as int % bias@.len() as int != 0) ==> r == Err::<
                LinearCombination,
                TensorError,
            >(TensorError::DimensionMismatch),
            dims_product(weights_dimensions@) == weights@.len() as int && bias@.len() > 0
                && weights@.len() as int % bias@.len() as int == 0 ==> (r matches Ok(l)
                && l.weights_seq() == weights@ && l.bias_seq() == bias@ && l.wf()),
    {
        let weights_array = match Array::new(weights, weights_dimensions) {
            Ok(a) => a,
            Err(e) => {
                return Err(e);
            },
        };
        if bias.len() == 0 {
            return Err(TensorError::DimensionMismatch);
        }
        if weights_array.data.len() % bias.len() != 0 {
            return Err(TensorError::DimensionMismatch);
        }
        let n = bias.len();
        let mut dimensions: Vec<usize> = Vec::new();
        dimensions.push(n);
        proof {
            assert(dimensions@ =~= seq![n]);
            lemma_dims_product_single(n);
        }
        let bias_array = Array { data: bias, dimensions };
        Ok(LinearCombination { weights: weights_array, bias: bias_array })
    }

    /// Runs the affine transform. The input length and the bias length must
    /// multiply to the weights length; otherwise nothing is computed and a
    /// `DimensionMismatch` is reported. The accumulator starts from zero on
    /// every call, and any intermediate value outside the `i64` range stops
    /// the call with an `Overflow` report.
    #[verifier::loop_isolation(false)]
    pub fn execute_operation(&self, input: &Array) -> (r: Result<Array, TensorError>)
        ensures
            input.data@.len() * self.bias_seq().len() != self.weights_seq().len() ==> r == Err::<
                Array,
                TensorError,
            >(TensorError::DimensionMismatch),
            input.data@.len() * self.bias_seq().len() == self.weights_seq().len() && !linear_fits(
                input.data@,
                self.weights_seq(),
                self.bias_seq(),
            ) ==> r == Err::<Array, TensorError>(TensorError::Overflow),
            input.data@.len() * self.bias_seq().len() == self.weights_seq().len() && linear_fits(
                input.data@,
                self.weights_seq(),
                self.bias_seq(),
            ) ==> (r matches Ok(a) && a.data@ == linear_output(
                input.data@,
                self.weights_seq(),
                self.bias_seq(),
            ) && a.dimensions@ == seq![self.bias_seq().len() as usize] && a.wf()),
    {
        let n = input.data.len();
        let cols = self.bias.data.len();
        let total = self.weights.data.len();
        let ghost iseq: Seq<i64> = input.data@;
        let ghost wseq: Seq<i64> = self.weights_seq();
        let ghost bseq: Seq<i64> = self.bias_seq();
        proof {
            assert((n as int) * (cols as int) <= u128::MAX as int) by (nonlinear_arith)
                requires
                    0 <= n as int <= usize::MAX as int,
                    0 <= cols as int <= usize::MAX as int,
                    usize::MAX as int <= 0xFFFF_FFFF_FFFF_FFFF,
            ;
        }
        if (n as u128) * (cols as u128) != (total as u128) {
            return Err(TensorError::DimensionMismatch);
        }
        let mut out: Vec<i64> = Vec::new();
        let mut j: usize = 0;
        while j < cols
            invariant
                j <= cols,
                out@.len() == j,
                forall|m: int| 0 <= m < j ==> out@[m] == 0i64,
            decreases cols - j,
        {
            out.push(0);
            j = j + 1;
        }
        let mut i: usize = 0;
        while i < n
            invariant
                i <= n,
                out@.len() == cols,
                forall|m: int|
                    0 <= m < cols ==> (#[trigger] out@[m]) as int == dot_prefix(
                        iseq,
                        wseq,
                        cols as int,
                        m,
                        i as int,
                    ),
                forall|m: int, k: int|
                    0 <= m < cols && 1 <= k <= i ==> in_i64_range(
                        #[trigger] dot_prefix(iseq, wseq, cols as int, m, k),
                    ),
            decreases n - i,
        {
            let x = input.data[i];
            let mut j2: usize = 0;
            while j2 < cols
                invariant
                    j2 <= cols,
                    i < n,
                    out@.len() == cols,
                    forall|m: int|
                        0 <= m < j2 ==> (#[trigger] out@[m]) as int == dot_prefix(
                            iseq,
                            wseq,
                            cols as int,
                            m,
                            i + 1,
                        ),
                    forall|m: int|
                        j2 <= m < cols ==> (#[trigger] out@[m]) as int == dot_prefix(
                            iseq,
                            wseq,
                            cols as int,
                            m,
                            i as int,
                        ),
                    forall|m: int, k: int|
                        0 <= m < j2 && 1 <= k <= i + 1 ==> in_i64_range(
                            #[trigger] dot_prefix(iseq, wseq, cols as int, m, k),
                        ),
                    forall|m: int, k: int|
                        j2 <= m < cols && 1 <= k <= i ==> in_i64_range(
                            #[trigger] dot_prefix(iseq, wseq, cols as int, m, k),
                        ),
                decreases cols - j2,
            {
                proof {
                    assert((i as int) * (cols as int) >= 0) by (nonlinear_arith)
                        requires
                            0 <= i as int,
                            0 <= cols as int,
                    ;
                    assert((i as int) * (cols as int) + (j2 as int) < total as int)
                        by (nonlinear_arith)
                        requires
                            0 <= i as int,
                            (i as int) < n as int,
                            0 <= j2 as int,
                            (j2 as int) < cols as int,
                            (n as int) * (cols as int) == total as int,
                    ;
                }
                let idx = i * cols + j2;
                let w = self.weights.data[idx];
                proof {
                    assert(-0x4000_0000_0000_0000_0000_0000_0000_0000 <= (x as int) * (w as int)
                        <= 0x4000_0000_0000_0000_0000_0000_0000_0000) by (nonlinear_arith)
                        requires
                            i64::MIN <= x as int <= i64::MAX,
                            i64::MIN <= w as int <= i64::MAX,
                    ;
                }
                let prod: i128 = (x as i128) * (w as i128);
                let cur = out[j2];
                let s: i128 = (cur as i128) + prod;
                proof {
                    assert(dot_prefix(iseq, wseq, cols as int, j2 as int, i + 1) == (cur as int) + (
                    x as int) * (w as int));
                }
                if s < (i64::MIN as i128) || s > (i64::MAX as i128) {
                    proof {
                        assert(!linear_fits_column(iseq, wseq, bseq, j2 as int));
                        assert(!linear_fits(iseq, wseq, bseq));
                    }
                    return Err(TensorError::Overflow);
                }
                out.set(j2, s as i64);
                j2 = j2 + 1;
            }
            i = i + 1;
        }
        let mut j3: usize = 0;
        while j3 < cols
            invariant
                j3 <= cols,
                out@.len() == cols,
                forall|m: int|
                    0 <= m < j3 ==> (#[trigger] out@[m]) as int == column_total(
                        iseq,
                        wseq,
                        bseq,
                        m,
                    ),
                forall|m: int|
                    j3 <= m < cols ==> (#[trigger] out@[m]) as int == dot_prefix(
                        iseq,
                        wseq,
                        cols as int,
                        m,
                        n as int,
                    ),
                forall|m: int, k: int|
                    0 <= m < cols && 1 <= k <= n ==> in_i64_range(
                        #[trigger] dot_prefix(iseq, wseq, cols as int, m, k),
                    ),
            decreases cols - j3,
        {
            let b = self.bias.data[j3];
            let cur = out[j3];
            let s: i128 = (cur as i128) + (b as i128);
            proof {
                assert(column_total(iseq, wseq, bseq, j3 as int) == (cur as int) + (b as int));
            }
            if s < (i64::MIN as i128) || s > (i64::MAX as i128) {
                proof {
                    assert(!linear_fits_column(iseq, wseq, bseq, j3 as int));
                    assert(!linear_fits(iseq, wseq, bseq));
                }
                return Err(TensorError::Overflow);
            }
            out.set(j3, s as i64);
            j3 = j3 + 1;
        }
        proof {
            assert forall|m: int| 0 <= m < bseq.len() implies #[trigger] linear_fits_column(
                iseq,
                wseq,
                bseq,
                m,
            ) by {
                assert(out@[m] as int == column_total(iseq, wseq, bseq, m));
            };
            assert(linear_fits(iseq, wseq, bseq));
            assert forall|m: int| 0 <= m < cols implies out@[m] == #[trigger] linear_output(
                iseq,
                wseq,
                bseq,
            )[m] by {
                assert(out@[m] as int == column_total(iseq, wseq, bseq, m));
            };
            assert(out@ =~= linear_output(iseq, wseq, bseq));
        }
        let mut dimensions: Vec<usize> = Vec::new();
        dimensions.push(cols);
        proof {
            assert(dimensions@ =~= seq![cols]);
            lemma_dims_product_single(cols);
        }
        Ok(Array { data: out, dimensions })
    }

    /// An affine layer's trainable scalars are all its weights and biases.
    pub fn count_parameters(&self) -> (r: usize)
        requires
            self.weights_seq().len() + self.bias_seq().len() <= usize::MAX,
        ensures
            r as int == self.weights_seq().len() + self.bias_seq().len(),
    {
        self.weights.data.len() + self.bias.data.len()
    }
}

} // verus!
