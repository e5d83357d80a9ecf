use vstd::prelude::*;

use crate::array::Array;
use crate::error::InferenceError;
use crate::error::TensorError;
use crate::linear::LinearCombination;
use crate::operator::operator_output;
use crate::operator::operator_params;
use crate::operator::Operator;

verus! {

/// The total number of trainable scalars across a pipeline, in order.
pub open spec fn pipeline_params(ops: Seq<Operator>) -> int
    decreases ops.len(),
{
    if ops.len() == 0 {
        0
    } else {
        pipeline_params(ops.drop_last()) + operator_params(ops.last())
    }
}

/// What a pipeline turns an input buffer into: the final output buffer, or
/// the index of the first operator that failed together with its failure.
pub open spec fn pipeline_output(ops: Seq<Operator>, data: Seq<i64>) -> Result<
    Seq<i64>,
    (int, TensorError),
>
    decreases ops.len(),
{
    if ops.len() == 0 {
        Ok(data)
    } else {
        match operator_output(ops[0], data) {
            Ok(next) => match pipeline_output(ops.skip(1), next) {
                Ok(out) => Ok(out),
                Err(e) => Err((e.0 + 1, e.1)),
            },
            Err(k) => Err((0, k)),
        }
    }
}

/// Appending one operator adds exactly its own scalars to a prefix's total.
proof fn lemma_pipeline_params_take_succ(ops: Seq<Operator>, i: int)
    requires
        0 <= i < ops.len(),
    ensures
        pipeline_params(ops.take(i + 1)) == pipeline_params(ops.take(i)) + operator_params(ops[i]),
{
    assert(ops.take(i + 1).drop_last() =~= ops.take(i));
    assert(ops.take(i + 1).last() == ops[i]);
}

/// A prefix never counts more scalars than the whole pipeline.
proof fn lemma_pipeline_params_prefix(ops: Seq<Operator>, i: int)
    requires
        0 <= i <= ops.len(),
    ensures
        pipeline_params(ops.take(i)) <= pipeline_params(ops),
    decreases ops.len() - i,
{
    if i == ops.len() {
        assert(ops.take(i) =~= ops);
    } else {
        lemma_pipeline_params_take_succ(ops, i);
        assert(operator_params(ops[i]) >= 0);
        lemma_pipeline_params_prefix(ops, i + 1);
    }
}

/// A pipeline containing no affine layer owns no trainable scalars at all.
pub proof fn lemma_params_no_linear(ops: Seq<Operator>)
    requires
        forall|i: int| 0 <= i < ops.len() ==> !((#[trigger] ops[i]) is LinearCombination),
    ensures
        pipeline_params(ops) == 0,
    decreases ops.len(),
{
    if ops.len() > 0 {
        let pre = ops.drop_last();
        assert forall|i: int| 0 <= i < pre.len() implies !((#[trigger] pre[i])
            is LinearCombination) by {
            assert(pre[i] == ops[i]);
        };
        lemma_params_no_linear(pre);
        assert(!(ops[ops.len() - 1] is LinearCombination));
    }
}

/// A pipeline whose one and only affine layer is `l` owns exactly as many
/// trainable scalars as `l`'s weights and bias together.
pub proof fn lemma_params_single_linear(ops: Seq<Operator>, pos: int, l: LinearCombination)
    requires
        0 <= pos < ops.len(),
        ops[pos] == Operator::LinearCombination(l),
        forall|i: int|
            0 <= i < ops.len() && i != pos ==> !((#[trigger] ops[i]) is LinearCombination),
    ensures
        pipeline_params(ops) == l.weights_seq().len() + l.bias_seq().len(),
    decreases ops.len(),
{
    let last = ops.len() - 1;
    let pre = ops.drop_last();
    if pos == last {
        assert forall|i: int| 0 <= i < pre.len() implies !((#[trigger] pre[i])
            is LinearCombination) by {
            assert(pre[i] == ops[i]);
        };
        lemma_params_no_linear(pre);
        assert(ops.last() == ops[pos]);
    } else {
        assert(!(ops[last] is LinearCombination));
        assert forall|i: int| 0 <= i < pre.len() && i != pos implies !((#[trigger] pre[i])
            is LinearCombination) by {
            assert(pre[i] == ops[i]);
        };
        assert(pre[pos] == ops[pos]);
        lemma_params_single_linear(pre, pos, l);
    }
}

/// An ordered pipeline of operators, applied left to right; reusable across
/// arbitrarily many runs.
pub struct Network {
    operators: Vec<Operator>,
}

impl Network {
    /// The operators, in insertion order, which is execution order.
    pub closed spec fn op_seq(&self) -> Seq<Operator> {
        self.operators@
    }

    /// A network starts with no operators; an empty pipeline is already
    /// executable and hands the input back unchanged.
    pub fn new() -> (r: Network)
        ensures
            r.op_seq() == Seq::<Operator>::empty(),
    {
        let operators: Vec<Operator> = Vec::new();
        proof {
            assert(operators@ =~= Seq::<Operator>::empty());
        }
        Network { operators }
    }

    /// Appends one operator at the end of the pipeline; always succeeds.
    pub fn add_operator(&mut self, operator: Operator) -> (r: Result<(), TensorError>)
        ensures
            r == Ok::<(), TensorError>(()),
            final(self).op_seq() == old(self).op_seq().push(operator),
    {
        self.operators.push(operator);
        Ok(())
    }

    /// Sums the trainable scalars of all operators, in order.
    pub fn count_parameters(&self) -> (r: usize)
        requires
            pipeline_params(self.op_seq()) <= usize::MAX,
        ensures
            r as int == pipeline_params(self.op_seq()),
    {
        let mut total: usize = 0;
        let mut i: usize = 0;
        while i < self.operators.len()
            invariant
                i <= self.op_seq().len(),
                pipeline_params(self.op_seq()) <= usize::MAX,
                total as int == pipeline_params(self.op_seq().take(i as int)),
            decreases self.op_seq().len() - i,
        {
            proof {
                lemma_pipeline_params_take_succ(self.op_seq(), i as int);
                lemma_pipeline_params_prefix(self.op_seq(), i + 1);
            }
            let op = &self.operators[i];
            let c = op.count_parameters();
            total = total + c;
            i = i + 1;
        }
        proof {
            assert(self.op_seq().take(self.op_seq().len() as int) =~= self.op_seq());
        }
        total
    }

    /// Runs the pipeline: the input tensor is fed to the first operator,
    /// each output becomes the next operator's input, and the last output is
    /// returned. A failing operator aborts the run, reporting its position
    /// and its failure; an empty pipeline returns the input unchanged.
    pub fn execute_inference(&self, input: &Array) -> (r: Result<Array, InferenceError>)
        ensures
            match r {
                Ok(out) => pipeline_output(self.op_seq(), input.data@) == Ok::<
                    Seq<i64>,
                    (int, TensorError),
                >(out.data@) && (self.op_seq().len() == 0 ==> out.data@ == input.data@
                    && out.dimensions@ == input.dimensions@) && (self.op_seq().len() > 0
                    ==> out.dimensions@ == seq![out.data@.len() as usize] && out.wf()),
                Err(e) => pipeline_output(self.op_seq(), input.data@) == Err::<
                    Seq<i64>,
                    (int, TensorError),
                >((e.operator_index as int, e.kind)) && e.operator_index < self.op_seq().len(),
            },
    {
        let mut current = Array::empty();
        current.copy_array(input);
        proof {
            assert(self.op_seq().skip(0) =~= self.op_seq());
        }
        let mut i: usize = 0;
        while i < self.operators.len()
            invariant
                i <= self.op_seq().len(),
                match pipeline_output(self.op_seq().skip(i as int), current.data@) {
                    Ok(out) => pipeline_output(self.op_seq(), input.data@) == Ok::<
                        Seq<i64>,
                        (int, TensorError),
                    >(out),
                    Err(e) => pipeline_output(self.op_seq(), input.data@) == Err::<
                        Seq<i64>,
                        (int, TensorError),
                    >((e.0 + i, e.1)),
                },
                i == 0 ==> current.data@ == input.data@ && current.dimensions@
                    == input.dimensions@,
                i > 0 ==> current.dimensions@ == seq![current.data@.len() as usize]
                    && current.wf(),
            decreases self.op_seq().len() - i,
        {
            proof {
                assert(self.op_seq().skip(i as int)[0] == self.op_seq()[i as int]);
                assert(self.op_seq().skip(i as int).skip(1) =~= self.op_seq().skip(i + 1));
            }
            let op = &self.operators[i];
            match op.execute_operation(&current) {
                Ok(a) => {
                    current = a;
                },
                Err(k) => {
                    return Err(InferenceError { operator_index: i, kind: k });
                },
            }
            i = i + 1;
        }
        proof {
            assert(self.op_seq().skip(self.op_seq().len() as int) =~= Seq::<Operator>::empty());
        }
        Ok(current)
    }
}

} // verus!
