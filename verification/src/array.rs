use vstd::prelude::*;

use crate::error::TensorError;

verus! {

/// The number of elements a shape descriptor calls for: the product of all
/// per-axis sizes. The empty shape denotes a single scalar.
pub open spec fn dims_product(dims: Seq<usize>) -> int
    decreases dims.len(),
{
    if dims.len() == 0 {
        1
    } else {
        dims_product(dims.drop_last()) * (dims.last() as int)
    }
}

/// A shape of one axis holds exactly as many elements as that axis is long.
pub proof fn lemma_dims_product_single(n: usize)
    ensures
        dims_product(seq![n]) == n as int,
{
    assert(dims_product(Seq::<usize>::empty()) == 1);
    assert(seq![n].drop_last() =~= Seq::<usize>::empty());
    assert(seq![n].last() == n);
}

/// Decides whether a shape descriptor calls for exactly `len` elements.
/// The running product is clamped just above `usize::MAX`: the walk cannot
/// overflow, while a later zero axis still brings the product back to zero.
fn shape_matches_len(dims: &Vec<usize>, len: usize) -> (r: bool)
    ensures
        r == (dims_product(dims@) == len as int),
{
    let cap: u128 = (usize::MAX as u128) + 1;
    let mut q: u128 = 1;
    let mut i: usize = 0;
    while i < dims.len()
        invariant
            i <= dims@.len(),
            cap == (usize::MAX as u128) + 1,
            q <= cap,
            0 <= dims_product(dims@.take(i as int)),
            dims_product(dims@.take(i as int)) < cap as int ==> q as int == dims_product(
                dims@.take(i as int),
            ),
            dims_product(dims@.take(i as int)) >= cap as int ==> q == cap,
        decreases dims@.len() - i,
    {
        let ghost p: int = dims_product(dims@.take(i as int));
        let d = dims[i];
        proof {
            assert(dims@.take(i + 1).drop_last() =~= dims@.take(i as int));
            assert(dims@.take(i + 1).last() == dims@[i as int]);
            assert(dims_product(dims@.take(i + 1)) == p * (d as int));
            assert((q as int) * (d as int) <= u128::MAX as int) by (nonlinear_arith)
                requires
                    0 <= q as int,
                    q as int <= usize::MAX as int + 1,
                    0 <= d as int,
                    d as int <= usize::MAX as int,
                    usize::MAX as int <= 0xFFFF_FFFF_FFFF_FFFF,
            ;
            assert(p * (d as int) >= 0) by (nonlinear_arith)
                requires
                    p >= 0,
                    d as int >= 0,
            ;
            if p >= cap as int {
                if d == 0 {
                    assert(p * (d as int) == 0) by (nonlinear_arith)
                        requires
                            d as int == 0,
                    ;
                    assert((q as int) * (d as int) == 0) by (nonlinear_arith)
                        requires
                            d as int == 0,
                    ;
                } else {
                    assert(p * (d as int) >= p) by (nonlinear_arith)
                        requires
                            p >= 0,
                            d as int >= 1,
                    ;
                    assert((q as int) * (d as int) >= q as int) by (nonlinear_arith)
                        requires
                            q as int >= 0,
                            d as int >= 1,
                    ;
                }
            }
        }
        let q_raw: u128 = q * (d as u128);
        q = if q_raw > cap {
            cap
        } else {
            q_raw
        };
        proof {
            let pn: int = dims_product(dims@.take(i + 1));
            assert(pn == p * (d as int));
            assert(pn < cap as int ==> q as int == pn);
            assert(pn >= cap as int ==> q == cap);
        }
        i = i + 1;
    }
    proof {
        assert(dims@.take(dims@.len() as int) =~= dims@);
    }
    q == (len as u128)
}

/// Builds a fresh buffer with the same values.
pub(crate) fn copy_values(v: &Vec<i64>) -> (r: Vec<i64>)
    ensures
        r@ == v@,
{
    let mut r: Vec<i64> = Vec::new();
    let mut i: usize = 0;
    while i < v.len()
        invariant
            i <= v@.len(),
            r@ == v@.take(i as int),
        decreases v@.len() - i,
    {
        r.push(v[i]);
        proof {
            assert(r@ =~= v@.take(i + 1));
        }
        i = i + 1;
    }
    proof {
        assert(v@.take(v@.len() as int) =~= v@);
    }
    r
}

/// Builds a fresh shape descriptor with the same axis sizes.
pub(crate) fn copy_shape(v: &Vec<usize>) -> (r: Vec<usize>)
    ensures
        r@ == v@,
{
    let mut r: Vec<usize> = Vec::new();
    let mut i: usize = 0;
    while i < v.len()
        invariant
            i <= v@.len(),
            r@ == v@.take(i as int),
        decreases v@.len() - i,
    {
        r.push(v[i]);
        proof {
            assert(r@ =~= v@.take(i + 1));
        }
        i = i + 1;
    }
    proof {
        assert(v@.take(v@.len() as int) =~= v@);
    }
    r
}

/// An N-dimensional dense tensor: a flat row-major buffer of values plus an
/// ordered shape descriptor.
#[derive(Debug, Clone)]
pub struct Array {
    pub data: Vec<i64>,
    pub dimensions: Vec<usize>,
}

impl Array {
    /// The element-count invariant: the shape describes exactly the buffer.
    pub open spec fn wf(&self) -> bool {
        dims_product(self.dimensions@) == self.data@.len() as int
    }

    /// Constructs a tensor, rejecting any shape whose element count differs
    /// from the buffer length.
    pub fn new(data: Vec<i64>, dimensions: Vec<usize>) -> (r: Result<Array, TensorError>)
        ensures
            dims_product(dimensions@) == data@.len() as int ==> (r matches Ok(a) && a.data@
                == data@ && a.dimensions@ == dimensions@ && a.wf()),
            dims_product(dimensions@) != data@.len() as int ==> r == Err::<Array, TensorError>(
                TensorError::ShapeMismatch,
            ),
    {
        if shape_matches_len(&dimensions, data.len()) {
            Ok(Array { data, dimensions })
        } else {
            Err(TensorError::ShapeMismatch)
        }
    }

    /// The implicit empty tensor: no values, one zero-sized axis.
    pub fn empty() -> (r: Array)
        ensures
            r.data@ == Seq::<i64>::empty(),
            r.dimensions@ == seq![0usize],
            r.wf(),
    {
        let data: Vec<i64> = Vec::new();
        let mut dimensions: Vec<usize> = Vec::new();
        dimensions.push(0);
        proof {
            assert(dimensions@ =~= seq![0usize]);
            lemma_dims_product_single(0);
        }
        Array { data, dimensions }
    }

    /// How many axes the shape descriptor has.
    pub fn n_dim(&self) -> (r: usize)
        ensures
            r == self.dimensions@.len(),
    {
        self.dimensions.len()
    }

    /// How many values the buffer holds.
    pub fn len(&self) -> (r: usize)
        ensures
            r == self.data@.len(),
    {
        self.data.len()
    }

    /// Overwrites both buffer and shape with the other tensor's. When the
    /// lengths match, the existing buffer is reused in place; otherwise it
    /// is replaced.
    pub fn copy_array(&mut self, other: &Array)
        ensures
            final(self).data@ == other.data@,
            final(self).dimensions@ == other.dimensions@,
    {
        if self.data.len() == other.data.len() {
            let mut i: usize = 0;
            while i < other.data.len()
                invariant
                    i <= other.data@.len(),
                    self.data@.len() == other.data@.len(),
                    forall|k: int| 0 <= k < i ==> self.data@[k] == other.data@[k],
                decreases other.data@.len() - i,
            {
                let x = other.data[i];
                self.data.set(i, x);
                i = i + 1;
            }
            proof {
                assert(self.data@ =~= other.data@);
            }
        } else {
            self.data = copy_values(&other.data);
        }
        self.dimensions = copy_shape(&other.dimensions);
    }

    /// Replaces the shape descriptor without moving any data, rejecting any
    /// shape whose element count differs from the buffer length.
    pub fn reshape(&mut self, dimensions: &Vec<usize>) -> (r: Result<(), TensorError>)
        ensures
            final(self).data@ == old(self).data@,
            dims_product(dimensions@) == old(self).data@.len() as int ==> r == Ok::<
                (),
                TensorError,
            >(()) && final(self).dimensions@ == dimensions@,
            dims_product(dimensions@) != old(self).data@.len() as int ==> r == Err::<
                (),
                TensorError,
            >(TensorError::ShapeMismatch) && final(self).dimensions@ == old(self).dimensions@,
    {
        if shape_matches_len(dimensions, self.data.len()) {
            self.dimensions = copy_shape(dimensions);
            Ok(())
        } else {
            Err(TensorError::ShapeMismatch)
        }
    }
}

} // verus!
