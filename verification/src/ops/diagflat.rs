//! Diagonal construction: from a length-`N` row or column vector, an
//! `N x N` matrix holding the vector on its diagonal and the element type's
//! zero everywhere else. The full output region is zero-filled first: a
//! cache-reused buffer arrives holding stale data, so the zeroing can never
//! be skipped.
use vstd::prelude::*;

use crate::cpu::lemma_cell_in_bounds;
use crate::cpu::lemma_cells_differ;
use crate::cpu::Host;
use crate::ops::sum::sum_seq;
use crate::Ident;
use crate::Matrix;

verus! {

/// Writes `a` onto the diagonal of the `size x size` buffer `b`, touching
/// nothing else: `b[k*size + k] == a[k]`, every off-diagonal cell keeps the
/// value it held before.
pub fn diagflat<T: Copy>(size: usize, a: &[T], b: &mut [T])
    requires
        a@.len() == size,
        old(b)@.len() == size * size,
    ensures
        final(b)@.len() == size * size,
        forall|k: int| 0 <= k < size ==> #[trigger] final(b)@[k * size + k] == a@[k],
        forall|i: int, j: int|
            0 <= i < size && 0 <= j < size && i != j ==> #[trigger] final(b)@[i * size + j] == old(
                b,
            )@[i * size + j],
{
    let _len_fits: usize = b.len();
    proof {
        assert(size * size <= usize::MAX);
    }
    let mut k: usize = 0;
    while k < size
        invariant
            a@.len() == size,
            b@.len() == size * size,
            size * size <= usize::MAX,
            k <= size,
            forall|d: int| 0 <= d < k ==> #[trigger] b@[d * size + d] == a@[d],
            forall|d: int| k <= d < size ==> #[trigger] b@[d * size + d] == old(b)@[d * size + d],
            forall|i: int, j: int|
                0 <= i < size && 0 <= j < size && i != j ==> #[trigger] b@[i * size + j] == old(
                    b,
                )@[i * size + j],
        decreases size - k,
    {
        proof {
            lemma_cell_in_bounds(k as int, k as int, size as int, size as int);
        }
        let ghost prev = b@;
        let idx = k * size + k;
        b[idx] = a[k];
        proof {
            assert forall|i: int, j: int|
                0 <= i < size && 0 <= j < size && !(i == k as int && j == k as int)
                    implies #[trigger] b@[i * size + j] == prev[i * size + j] by {
                lemma_cell_in_bounds(i, j, size as int, size as int);
                if i != k as int {
                    lemma_cells_differ(k as int, k as int, i, j, size as int);
                }
            }
        }
        k += 1;
    }
}

/// The diagonal-construction capability of a device: `diagflat` of a
/// length-`N` row or column vector is the `N x N` matrix carrying the vector
/// on its diagonal and the device's zero element everywhere else.
pub trait DiagflatOp<T: Copy>: Sized {
    /// The element the off-diagonal cells hold.
    spec fn zero_val() -> T;

    fn diagflat(&mut self, x: &Matrix<T>) -> (out: Matrix<T>)
        requires
            x.wf(),
            x.rows == 1 || x.cols == 1,
            x@.len() * x@.len() <= usize::MAX,
        ensures
            out.wf(),
            out.rows == x@.len(),
            out.cols == x@.len(),
            forall|k: int| 0 <= k < x@.len() ==> #[trigger] out@[k * x@.len() + k] == x@[k],
            forall|i: int, j: int|
                0 <= i < x@.len() && 0 <= j < x@.len() && i != j ==> #[trigger] out@[i * x@.len()
                    + j] == Self::zero_val(),
    ;
}

impl DiagflatOp<i32> for Host<i32> {
    open spec fn zero_val() -> i32 {
        0
    }

    /// The host diagonal construction: retrieves an `N*N` output buffer from
    /// the cache under `x`'s identity, zero-fills the whole region, then
    /// writes the diagonal.
    fn diagflat(&mut self, x: &Matrix<i32>) -> (out: Matrix<i32>) {
        let size = x.data.len();
        let ident = Ident { left: x.node, right: 0 };
        let mut data = if size == 0 {
            Vec::new()
        } else {
            self.retrieve(ident, size * size, 0)
        };
        let total = data.len();
        let mut m: usize = 0;
        while m < total
            invariant
                data@.len() == total,
                m <= total,
                forall|p: int| 0 <= p < m ==> #[trigger] data@[p] == 0i32,
            decreases total - m,
        {
            data[m] = 0;
            m += 1;
        }
        proof {
            if size == 0 {
                assert(size * size == 0) by (nonlinear_arith)
                    requires
                        size == 0,
                ;
            }
            assert(data@.len() == size * size);
        }
        diagflat(size, x.data.as_slice(), data.as_mut_slice());
        proof {
            assert forall|i: int, j: int|
                0 <= i < size && 0 <= j < size && i != j implies #[trigger] data@[i * size + j]
                == 0i32 by {
                lemma_cell_in_bounds(i, j, size as int, size as int);
            }
        }
        self.wrap(data, size, size, ident)
    }
}

impl<T: Copy> Matrix<T> {
    /// Builds the diagonal matrix of this row or column vector, on the
    /// owning device.
    pub fn diagflat<D: DiagflatOp<T>>(&self, device: &mut D) -> (out: Matrix<T>)
        requires
            self.wf(),
            self.rows == 1 || self.cols == 1,
            self@.len() * self@.len() <= usize::MAX,
        ensures
            out.wf(),
            out.rows == self@.len(),
            out.cols == self@.len(),
            forall|k: int| 0 <= k < self@.len() ==> #[trigger] out@[k * self@.len() + k]
                == self@[k],
            forall|i: int, j: int|
                0 <= i < self@.len() && 0 <= j < self@.len() && i != j ==> #[trigger] out@[i
                    * self@.len() + j] == D::zero_val(),
    {
        device.diagflat(self)
    }
}

/// The sum of the first `k` diagonal cells of an `n x n` row-major buffer.
pub open spec fn trace_of(d: Seq<int>, n: int, k: int) -> int
    decreases k,
{
    if k <= 0 {
        0
    } else {
        trace_of(d, n, k - 1) + d[(k - 1) * n + (k - 1)]
    }
}

/// The trace of an `n x n` row-major buffer: the sum of its diagonal.
pub open spec fn trace(d: Seq<int>, n: int) -> int {
    trace_of(d, n, n)
}

/// The first `k` diagonal cells of a diagonal construction sum to the sum
/// of the first `k` input elements.
proof fn lemma_trace_take(d: Seq<int>, v: Seq<int>, k: int)
    requires
        0 <= k <= v.len(),
        forall|p: int| 0 <= p < v.len() ==> #[trigger] d[p * v.len() + p] == v[p],
    ensures
        trace_of(d, v.len() as int, k) == sum_seq(v.take(k)),
    decreases k,
{
    if k <= 0 {
        assert(v.take(0) =~= Seq::<int>::empty());
    } else {
        lemma_trace_take(d, v, k - 1);
        assert(v.take(k).drop_last() =~= v.take(k - 1));
        assert(v.take(k).last() == v[k - 1]);
    }
}

/// The trace law of diagonal construction: a buffer carrying `v` on its
/// diagonal has trace equal to the sum of `v`, whatever its off-diagonal
/// cells hold.
pub proof fn lemma_diagflat_trace(d: Seq<int>, v: Seq<int>)
    requires
        forall|p: int| 0 <= p < v.len() ==> #[trigger] d[p * v.len() + p] == v[p],
    ensures
        trace(d, v.len() as int) == sum_seq(v),
{
    lemma_trace_take(d, v, v.len() as int);
    assert(v.take(v.len() as int) =~= v);
}

} // verus!
