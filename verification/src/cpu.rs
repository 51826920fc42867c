//! The host device and its kernel set: single-pass loops implementing the
//! unary, scalar-binary and row/column broadcast transforms over contiguous
//! row-major slices, each parameterized over the caller's combine function.
//!
//! The slice kernels state, element by element, that every output position
//! satisfies the combine function's postcondition on the corresponding
//! inputs; the matrix-level entry points add the buffer-cache discipline and
//! the eager shape checks.
use vstd::prelude::*;

use crate::cache::entry_matches;
use crate::cache::BufferCache;
use crate::cache::CacheEntry;
use crate::Ident;
use crate::Matrix;
use crate::OpError;

verus! {

/// The host device: owns the buffer cache for its matrices and assigns node
/// identities to every allocation it hands out.
pub struct Host<T> {
    pub cache: BufferCache<T>,
    pub node_count: u64,
}

impl<T: Copy> Host<T> {
    pub fn new() -> (r: Host<T>)
        ensures
            r.cache.entries@.len() == 0,
    {
        Host { cache: BufferCache::new(), node_count: 0 }
    }

    /// A fresh node identity for a new allocation.
    fn fresh_node(&mut self) -> u64 {
        let n = self.node_count;
        if self.node_count < u64::MAX {
            self.node_count = self.node_count + 1;
        }
        n
    }

    /// Builds a matrix on this device from explicit host data.
    pub fn matrix(&mut self, rows: usize, cols: usize, data: Vec<T>) -> (m: Matrix<T>)
        requires
            data@.len() == rows * cols,
        ensures
            m.wf(),
            m@ == data@,
            m.rows == rows,
            m.cols == cols,
    {
        let node = self.fresh_node();
        Matrix { data, rows, cols, node, prov: Ident { left: node, right: 0 } }
    }

    /// Retrieves an output buffer of exactly `size` elements for the
    /// allocation identity `ident`. On a hit — a pooled buffer of that
    /// identity and exact size exists — the pooled buffer is returned and
    /// leaves the pool, stale contents and all: the caller must overwrite
    /// every element it lets anyone read. On a miss the pool is untouched
    /// and the result is a fresh allocation filled with `fill`.
    pub fn retrieve(&mut self, ident: Ident, size: usize, fill: T) -> (r: Vec<T>)
        ensures
            r@.len() == size,
            final(self).node_count == old(self).node_count,
            (forall|i: int|
                0 <= i < old(self).cache.entries@.len() ==> !entry_matches(
                    #[trigger] old(self).cache.entries@[i],
                    ident.left,
                    ident.right,
                    size as int,
                )) ==> {
                &&& final(self).cache.entries@ == old(self).cache.entries@
                &&& r@ == Seq::new(size as nat, |p: int| fill)
            },
            (exists|i: int|
                0 <= i < old(self).cache.entries@.len() && entry_matches(
                    #[trigger] old(self).cache.entries@[i],
                    ident.left,
                    ident.right,
                    size as int,
                )) ==> (exists|i: int|
                {
                    &&& 0 <= i < old(self).cache.entries@.len()
                    &&& entry_matches(
                        #[trigger] old(self).cache.entries@[i],
                        ident.left,
                        ident.right,
                        size as int,
                    )
                    &&& r@ == old(self).cache.entries@[i].data@
                    &&& final(self).cache.entries@ == old(self).cache.entries@.update(
                        i,
                        old(self).cache.entries@.last(),
                    ).drop_last()
                }),
    {
        self.cache.retrieve(ident.left, ident.right, size, fill)
    }

    /// Wraps a finished output buffer as a matrix of this device, recording
    /// the allocation identity it was retrieved under.
    pub fn wrap(&mut self, data: Vec<T>, rows: usize, cols: usize, ident: Ident) -> (m: Matrix<T>)
        requires
            data@.len() == rows * cols,
        ensures
            m.wf(),
            m@ == data@,
            m.rows == rows,
            m.cols == cols,
    {
        let node = self.fresh_node();
        Matrix { data, rows, cols, node, prov: ident }
    }

    /// Releases a matrix: its buffer goes back to the cache under the
    /// identity it was retrieved for, eligible for exact-size reuse.
    pub fn hand_back(&mut self, m: Matrix<T>)
        ensures
            final(self).cache.entries@ == old(self).cache.entries@.push(
                (CacheEntry { left: m.prov.left, right: m.prov.right, data: m.data }),
            ),
            final(self).node_count == old(self).node_count,
    {
        self.cache.hand_back(m.prov.left, m.prov.right, m.data);
    }

    /// An output buffer of the same element count as `x`, keyed by `ident`:
    /// a cache retrieval when `x` has elements, a fresh empty buffer
    /// otherwise (an empty request needs no fill element).
    fn out_buffer_like(&mut self, x: &Matrix<T>, ident: Ident) -> (r: Vec<T>)
        requires
            x.wf(),
        ensures
            r@.len() == x@.len(),
    {
        if x.data.len() == 0 {
            Vec::new()
        } else {
            let fill = x.data[0];
            self.retrieve(ident, x.data.len(), fill)
        }
    }
}

/// For each output position `i`, stores an `f(lhs[i], scalar)` into `out[i]`.
pub fn scalar_apply_slice<T: Copy, F: Fn(T, T) -> T>(lhs: &[T], out: &mut [T], scalar: T, f: &F)
    requires
        old(out)@.len() == lhs@.len(),
        forall|i: int| 0 <= i < lhs@.len() ==> #[trigger] call_requires(*f, (lhs@[i], scalar)),
    ensures
        final(out)@.len() == lhs@.len(),
        forall|i: int|
            0 <= i < lhs@.len() ==> call_ensures(*f, (lhs@[i], scalar), #[trigger] final(out)@[i]),
{
    let mut idx: usize = 0;
    while idx < out.len()
        invariant
            out@.len() == lhs@.len(),
            idx <= lhs@.len(),
            forall|i: int| 0 <= i < lhs@.len() ==> #[trigger] call_requires(*f, (lhs@[i], scalar)),
            forall|i: int|
                0 <= i < idx ==> call_ensures(*f, (lhs@[i], scalar), #[trigger] out@[i]),
        decreases lhs@.len() - idx,
    {
        let value = f(lhs[idx], scalar);
        out[idx] = value;
        idx += 1;
    }
}

/// For each position `i`, stores an `f(x[i])` into `out[i]`: the unary
/// elementwise map.
pub fn each_op_slice<T: Copy, F: Fn(T) -> T>(x: &[T], out: &mut [T], f: &F)
    requires
        old(out)@.len() == x@.len(),
        forall|i: int| 0 <= i < x@.len() ==> #[trigger] call_requires(*f, (x@[i],)),
    ensures
        final(out)@.len() == x@.len(),
        forall|i: int| 0 <= i < x@.len() ==> call_ensures(*f, (x@[i],), #[trigger] final(out)@[i]),
{
    let mut idx: usize = 0;
    while idx < out.len()
        invariant
            out@.len() == x@.len(),
            idx <= x@.len(),
            forall|i: int| 0 <= i < x@.len() ==> #[trigger] call_requires(*f, (x@[i],)),
            forall|i: int| 0 <= i < idx ==> call_ensures(*f, (x@[i],), #[trigger] out@[i]),
        decreases x@.len() - idx,
    {
        let value = f(x[idx]);
        out[idx] = value;
        idx += 1;
    }
}

/// Broadcasts the single row `rhs` over every row of `lhs`:
/// `out[i*lcols + j]` satisfies the combine function's postcondition on
/// `(lhs[i*lcols + j], rhs[j])`.
pub fn row_op_slice_mut<T: Copy, F: Fn(T, T) -> T>(
    lhs: &[T],
    lrows: usize,
    lcols: usize,
    rhs: &[T],
    out: &mut [T],
    f: &F,
)
    requires
        lhs@.len() == lrows * lcols,
        old(out)@.len() == lrows * lcols,
        rhs@.len() == lcols,
        forall|i: int, j: int|
            0 <= i < lrows && 0 <= j < lcols ==> #[trigger] call_requires(*f, (lhs@[i * lcols + j], rhs@[j])),
    ensures
        final(out)@.len() == lrows * lcols,
        forall|i: int, j: int|
            0 <= i < lrows && 0 <= j < lcols ==> call_ensures(
                *f,
                (lhs@[i * lcols + j], rhs@[j]),
                #[trigger] final(out)@[i * lcols + j],
            ),
{
    let _len_fits: usize = out.len();
    proof {
        assert(lrows * lcols <= usize::MAX);
    }
    let mut i: usize = 0;
    while i < lrows
        invariant
            lhs@.len() == lrows * lcols,
            out@.len() == lrows * lcols,
            rhs@.len() == lcols,
            lrows * lcols <= usize::MAX,
            i <= lrows,
            forall|r: int, j: int|
                0 <= r < lrows && 0 <= j < lcols ==> #[trigger] call_requires(
                    *f,
                    (lhs@[r * lcols + j], rhs@[j]),
                ),
            forall|r: int, j: int|
                0 <= r < i && 0 <= j < lcols ==> call_ensures(
                    *f,
                    (lhs@[r * lcols + j], rhs@[j]),
                    #[trigger] out@[r * lcols + j],
                ),
        decreases lrows - i,
    {
        proof {
            lemma_row_start_in_bounds(i as int, lrows as int, lcols as int);
        }
        let index = i * lcols;
        let mut j: usize = 0;
        while j < lcols
            invariant
                lhs@.len() == lrows * lcols,
                out@.len() == lrows * lcols,
                rhs@.len() == lcols,
                i < lrows,
                j <= lcols,
                index == i * lcols,
                index + lcols <= lrows * lcols,
                lrows * lcols <= usize::MAX,
                forall|r: int, jj: int|
                    0 <= r < lrows && 0 <= jj < lcols ==> #[trigger] call_requires(
                        *f,
                        (lhs@[r * lcols + jj], rhs@[jj]),
                    ),
                forall|r: int, jj: int|
                    0 <= r < i && 0 <= jj < lcols ==> call_ensures(
                        *f,
                        (lhs@[r * lcols + jj], rhs@[jj]),
                        #[trigger] out@[r * lcols + jj],
                    ),
                forall|jj: int|
                    0 <= jj < j ==> call_ensures(
                        *f,
                        (lhs@[i * lcols + jj], rhs@[jj]),
                        #[trigger] out@[i * lcols + jj],
                    ),
            decreases lcols - j,
        {
            let ghost prev = out@;
            let value = f(lhs[index + j], rhs[j]);
            out[index + j] = value;
            proof {
                assert forall|r: int, jj: int|
                    0 <= r && r < lrows && r != i as int && 0 <= jj < lcols implies #[trigger] out@[r
                    * lcols + jj] == prev[r * lcols + jj] by {
                    lemma_cells_differ(i as int, j as int, r, jj, lcols as int);
                    lemma_cell_in_bounds(r, jj, lrows as int, lcols as int);
                }
            }
            j += 1;
        }
        i += 1;
    }
}

/// Broadcasts the single row `rhs` over every row of `lhs`, in place:
/// `lhs[i*lhs_cols + j]` is replaced by a value meeting the combine
/// function's postcondition on the old element and `rhs[j]`.
pub fn row_op_slice_lhs<T: Copy, F: Fn(T, T) -> T>(
    lhs: &mut [T],
    lhs_rows: usize,
    lhs_cols: usize,
    rhs: &[T],
    f: &F,
)
    requires
        old(lhs)@.len() == lhs_rows * lhs_cols,
        rhs@.len() == lhs_cols,
        forall|i: int, j: int|
            0 <= i < lhs_rows && 0 <= j < lhs_cols ==> #[trigger] call_requires(
                *f,
                (old(lhs)@[i * lhs_cols + j], rhs@[j]),
            ),
    ensures
        final(lhs)@.len() == lhs_rows * lhs_cols,
        forall|i: int, j: int|
            0 <= i < lhs_rows && 0 <= j < lhs_cols ==> call_ensures(
                *f,
                (old(lhs)@[i * lhs_cols + j], rhs@[j]),
                #[trigger] final(lhs)@[i * lhs_cols + j],
            ),
{
    let _len_fits: usize = lhs.len();
    proof {
        assert(lhs_rows * lhs_cols <= usize::MAX);
    }
    let mut i: usize = 0;
    while i < lhs_rows
        invariant
            lhs@.len() == lhs_rows * lhs_cols,
            rhs@.len() == lhs_cols,
            lhs_rows * lhs_cols <= usize::MAX,
            i <= lhs_rows,
            forall|r: int, j: int|
                0 <= r < lhs_rows && 0 <= j < lhs_cols ==> #[trigger] call_requires(
                    *f,
                    (old(lhs)@[r * lhs_cols + j], rhs@[j]),
                ),
            forall|r: int, j: int|
                i <= r < lhs_rows && 0 <= j < lhs_cols ==> old(lhs)@[r * lhs_cols + j]
                    == #[trigger] lhs@[r * lhs_cols + j],
            forall|r: int, j: int|
                0 <= r < i && 0 <= j < lhs_cols ==> call_ensures(
                    *f,
                    (old(lhs)@[r * lhs_cols + j], rhs@[j]),
                    #[trigger] lhs@[r * lhs_cols + j],
                ),
        decreases lhs_rows - i,
    {
        proof {
            lemma_row_start_in_bounds(i as int, lhs_rows as int, lhs_cols as int);
        }
        let index = i * lhs_cols;
        let mut j: usize = 0;
        while j < lhs_cols
            invariant
                lhs@.len() == lhs_rows * lhs_cols,
                rhs@.len() == lhs_cols,
                i < lhs_rows,
                j <= lhs_cols,
                index == i * lhs_cols,
                index + lhs_cols <= lhs_rows * lhs_cols,
                lhs_rows * lhs_cols <= usize::MAX,
                forall|r: int, jj: int|
                    0 <= r < lhs_rows && 0 <= jj < lhs_cols ==> #[trigger] call_requires(
                        *f,
                        (old(lhs)@[r * lhs_cols + jj], rhs@[jj]),
                    ),
                forall|r: int, jj: int|
                    i < r < lhs_rows && 0 <= jj < lhs_cols ==> old(lhs)@[r * lhs_cols + jj]
                        == #[trigger] lhs@[r * lhs_cols + jj],
                forall|jj: int|
                    j <= jj < lhs_cols ==> old(lhs)@[i * lhs_cols + jj] == #[trigger] lhs@[i
                        * lhs_cols + jj],
                forall|r: int, jj: int|
                    0 <= r < i && 0 <= jj < lhs_cols ==> call_ensures(
                        *f,
                        (old(lhs)@[r * lhs_cols + jj], rhs@[jj]),
                        #[trigger] lhs@[r * lhs_cols + jj],
                    ),
                forall|jj: int|
                    0 <= jj < j ==> call_ensures(
                        *f,
                        (old(lhs)@[i * lhs_cols + jj], rhs@[jj]),
                        #[trigger] lhs@[i * lhs_cols + jj],
                    ),
            decreases lhs_cols - j,
        {
            let ghost prev = lhs@;
            let value = f(lhs[index + j], rhs[j]);
            lhs[index + j] = value;
            proof {
                assert forall|r: int, jj: int|
                    0 <= r && r < lhs_rows && r != i as int && 0 <= jj < lhs_cols implies #[trigger] lhs@[r
                    * lhs_cols + jj] == prev[r * lhs_cols + jj] by {
                    lemma_cells_differ(i as int, j as int, r, jj, lhs_cols as int);
                    lemma_cell_in_bounds(r, jj, lhs_rows as int, lhs_cols as int);
                }
            }
            j += 1;
        }
        i += 1;
    }
}

/// Broadcasts the single column `rhs` over every column of `lhs`:
/// `out[i*lcols + j]` satisfies the combine function's postcondition on
/// `(lhs[i*lcols + j], rhs[i])`.
pub fn col_op_slice_mut<T: Copy, F: Fn(T, T) -> T>(
    lhs: &[T],
    lrows: usize,
    lcols: usize,
    rhs: &[T],
    out: &mut [T],
    f: &F,
)
    requires
        lhs@.len() == lrows * lcols,
        old(out)@.len() == lrows * lcols,
        rhs@.len() == lrows,
        forall|i: int, j: int|
            0 <= i < lrows && 0 <= j < lcols ==> #[trigger] call_requires(*f, (lhs@[i * lcols + j], rhs@[i])),
    ensures
        final(out)@.len() == lrows * lcols,
        forall|i: int, j: int|
            0 <= i < lrows && 0 <= j < lcols ==> call_ensures(
                *f,
                (lhs@[i * lcols + j], rhs@[i]),
                #[trigger] final(out)@[i * lcols + j],
            ),
{
    let _len_fits: usize = out.len();
    proof {
        assert(lrows * lcols <= usize::MAX);
    }
    let mut i: usize = 0;
    while i < lrows
        invariant
            lhs@.len() == lrows * lcols,
            out@.len() == lrows * lcols,
            rhs@.len() == lrows,
            lrows * lcols <= usize::MAX,
            i <= lrows,
            forall|r: int, j: int|
                0 <= r < lrows && 0 <= j < lcols ==> #[trigger] call_requires(
                    *f,
                    (lhs@[r * lcols + j], rhs@[r]),
                ),
            forall|r: int, j: int|
                0 <= r < i && 0 <= j < lcols ==> call_ensures(
                    *f,
                    (lhs@[r * lcols + j], rhs@[r]),
                    #[trigger] out@[r * lcols + j],
                ),
        decreases lrows - i,
    {
        proof {
            lemma_row_start_in_bounds(i as int, lrows as int, lcols as int);
        }
        let index = i * lcols;
        let rvalue = rhs[i];
        let mut j: usize = 0;
        while j < lcols
            invariant
                lhs@.len() == lrows * lcols,
                out@.len() == lrows * lcols,
                rhs@.len() == lrows,
                i < lrows,
                j <= lcols,
                index == i * lcols,
                index + lcols <= lrows * lcols,
                lrows * lcols <= usize::MAX,
                rvalue == rhs@[i as int],
                forall|r: int, jj: int|
                    0 <= r < lrows && 0 <= jj < lcols ==> #[trigger] call_requires(
                        *f,
                        (lhs@[r * lcols + jj], rhs@[r]),
                    ),
                forall|r: int, jj: int|
                    0 <= r < i && 0 <= jj < lcols ==> call_ensures(
                        *f,
                        (lhs@[r * lcols + jj], rhs@[r]),
                        #[trigger] out@[r * lcols + jj],
                    ),
                forall|jj: int|
                    0 <= jj < j ==> call_ensures(
                        *f,
                        (lhs@[i * lcols + jj], rhs@[i as int]),
                        #[trigger] out@[i * lcols + jj],
                    ),
            decreases lcols - j,
        {
            let ghost prev = out@;
            let value = f(lhs[index + j], rvalue);
            out[index + j] = value;
            proof {
                assert forall|r: int, jj: int|
                    0 <= r && r < lrows && r != i as int && 0 <= jj < lcols implies #[trigger] out@[r
                    * lcols + jj] == prev[r * lcols + jj] by {
                    lemma_cells_differ(i as int, j as int, r, jj, lcols as int);
                    lemma_cell_in_bounds(r, jj, lrows as int, lcols as int);
                }
            }
            j += 1;
        }
        i += 1;
    }
}

/// Cells of distinct rows have distinct flat indices, whatever their columns.
pub proof fn lemma_cells_differ(i: int, j: int, r: int, jj: int, cols: int)
    requires
        0 <= j < cols,
        0 <= jj < cols,
        0 <= i,
        0 <= r,
        i != r,
    ensures
        i * cols + j != r * cols + jj,
{
    assert(i * cols + j != r * cols + jj) by (nonlinear_arith)
        requires
            0 <= j < cols,
            0 <= jj < cols,
            0 <= i,
            0 <= r,
            i != r,
    ;
}

/// Row `i` of a `rows x cols` buffer starts at a nonnegative index and ends
/// within the buffer.
pub proof fn lemma_row_start_in_bounds(i: int, rows: int, cols: int)
    requires
        0 <= i < rows,
        0 <= cols,
    ensures
        i * cols + cols <= rows * cols,
        0 <= i * cols,
{
    assert(i * cols + cols <= rows * cols) by (nonlinear_arith)
        requires
            i < rows,
            0 <= cols,
    ;
    assert(0 <= i * cols) by (nonlinear_arith)
        requires
            0 <= i,
            0 <= cols,
    ;
}

/// Every cell index `i*cols + j` lies inside the `rows*cols` buffer.
pub proof fn lemma_cell_in_bounds(i: int, j: int, rows: int, cols: int)
    requires
        0 <= i < rows,
        0 <= j < cols,
    ensures
        0 <= i * cols + j < rows * cols,
{
    assert(i * cols + j < rows * cols) by (nonlinear_arith)
        requires
            0 <= i < rows,
            0 <= j < cols,
    ;
    assert(0 <= i * cols) by (nonlinear_arith)
        requires
            0 <= i,
            0 <= j < cols,
    ;
}

/// Applies `f(lhs[i], scalar)` across the matrix, through a cache-supplied
/// output buffer keyed by `lhs`'s node identity.
pub fn scalar_apply<T: Copy, F: Fn(T, T) -> T>(
    device: &mut Host<T>,
    lhs: &Matrix<T>,
    scalar: T,
    f: &F,
) -> (out: Matrix<T>)
    requires
        lhs.wf(),
        forall|i: int| 0 <= i < lhs@.len() ==> #[trigger] call_requires(*f, (lhs@[i], scalar)),
    ensures
        out.wf(),
        out.rows == lhs.rows,
        out.cols == lhs.cols,
        out@.len() == lhs@.len(),
        forall|i: int|
            0 <= i < lhs@.len() ==> call_ensures(*f, (lhs@[i], scalar), #[trigger] out@[i]),
{
    let ident = Ident { left: lhs.node, right: 0 };
    let mut data = device.out_buffer_like(lhs, ident);
    scalar_apply_slice(lhs.data.as_slice(), data.as_mut_slice(), scalar, f);
    device.wrap(data, lhs.rows, lhs.cols, ident)
}

/// Applies `f(x[i])` across the matrix, through a cache-supplied output
/// buffer keyed by `x`'s node identity.
pub fn each_op<T: Copy, F: Fn(T) -> T>(device: &mut Host<T>, x: &Matrix<T>, f: &F) -> (out: Matrix<
    T,
>)
    requires
        x.wf(),
        forall|i: int| 0 <= i < x@.len() ==> #[trigger] call_requires(*f, (x@[i],)),
    ensures
        out.wf(),
        out.rows == x.rows,
        out.cols == x.cols,
        out@.len() == x@.len(),
        forall|i: int| 0 <= i < x@.len() ==> call_ensures(*f, (x@[i],), #[trigger] out@[i]),
{
    let ident = Ident { left: x.node, right: 0 };
    let mut data = device.out_buffer_like(x, ident);
    each_op_slice(x.data.as_slice(), data.as_mut_slice(), f);
    device.wrap(data, x.rows, x.cols, ident)
}

/// Broadcasts the `1 x cols` row `rhs` over every row of `lhs`. The shape
/// precondition is checked eagerly: `rhs` must be exactly one row of
/// `lhs.cols` columns, or the operation fails with `ShapeMismatch` before
/// anything is computed.
pub fn row_op<T: Copy, F: Fn(T, T) -> T>(
    device: &mut Host<T>,
    lhs: &Matrix<T>,
    rhs: &Matrix<T>,
    f: &F,
) -> (out: Result<Matrix<T>, OpError>)
    requires
        lhs.wf(),
        rhs.wf(),
        rhs.rows == 1 && rhs.cols == lhs.cols ==> forall|i: int, j: int|
            0 <= i < lhs.rows && 0 <= j < lhs.cols ==> #[trigger] call_requires(
                *f,
                (lhs@[i * lhs.cols + j], rhs@[j]),
            ),
    ensures
        match out {
            Result::Ok(m) => {
                &&& rhs.rows == 1
                &&& rhs.cols == lhs.cols
                &&& m.wf()
                &&& m.rows == lhs.rows
                &&& m.cols == lhs.cols
                &&& forall|i: int, j: int|
                    0 <= i < lhs.rows && 0 <= j < lhs.cols ==> call_ensures(
                        *f,
                        (lhs@[i * lhs.cols + j], rhs@[j]),
                        #[trigger] m@[i * lhs.cols + j],
                    )
            },
            Result::Err(e) => {
                &&& e == OpError::ShapeMismatch
                &&& !(rhs.rows == 1 && rhs.cols == lhs.cols)
            },
        },
{
    if rhs.rows() != 1 || rhs.cols() != lhs.cols() {
        return Result::Err(OpError::ShapeMismatch);
    }
    proof {
        assert(rhs.rows == 1);
        assert(rhs.cols == lhs.cols);
    }
    let ident = Ident { left: lhs.node, right: rhs.node };
    let mut data = device.out_buffer_like(lhs, ident);
    proof {
        assert(rhs@.len() == rhs.rows * rhs.cols);
        assert(rhs.rows * rhs.cols == 1 * rhs.cols);
        assert(1 * rhs.cols == lhs.cols);
        assert(rhs@.len() == lhs.cols);
    }
    row_op_slice_mut(
        lhs.data.as_slice(),
        lhs.rows,
        lhs.cols,
        rhs.data.as_slice(),
        data.as_mut_slice(),
        f,
    );
    Result::Ok(device.wrap(data, lhs.rows, lhs.cols, ident))
}

/// Broadcasts the `rows x 1` column `rhs` over every column of `lhs`, under
/// the same eager shape discipline as `row_op`: `rhs` must be exactly one
/// column of `lhs.rows` rows, or the operation fails with `ShapeMismatch`.
pub fn col_op<T: Copy, F: Fn(T, T) -> T>(
    device: &mut Host<T>,
    lhs: &Matrix<T>,
    rhs: &Matrix<T>,
    f: &F,
) -> (out: Result<Matrix<T>, OpError>)
    requires
        lhs.wf(),
        rhs.wf(),
        rhs.cols == 1 && rhs.rows == lhs.rows ==> forall|i: int, j: int|
            0 <= i < lhs.rows && 0 <= j < lhs.cols ==> #[trigger] call_requires(
                *f,
                (lhs@[i * lhs.cols + j], rhs@[i]),
            ),
    ensures
        match out {
            Result::Ok(m) => {
                &&& rhs.cols == 1
                &&& rhs.rows == lhs.rows
                &&& m.wf()
                &&& m.rows == lhs.rows
                &&& m.cols == lhs.cols
                &&& forall|i: int, j: int|
                    0 <= i < lhs.rows && 0 <= j < lhs.cols ==> call_ensures(
                        *f,
                        (lhs@[i * lhs.cols + j], rhs@[i]),
                        #[trigger] m@[i * lhs.cols + j],
                    )
            },
            Result::Err(e) => {
                &&& e == OpError::ShapeMismatch
                &&& !(rhs.cols == 1 && rhs.rows == lhs.rows)
            },
        },
{
    if rhs.cols() != 1 || rhs.rows() != lhs.rows() {
        return Result::Err(OpError::ShapeMismatch);
    }
    proof {
        assert(rhs.cols == 1);
        assert(rhs.rows == lhs.rows);
    }
    let ident = Ident { left: lhs.node, right: rhs.node };
    let mut data = device.out_buffer_like(lhs, ident);
    proof {
        assert(rhs@.len() == rhs.rows * rhs.cols);
        assert(rhs.rows * rhs.cols == rhs.rows * 1);
        assert(rhs.rows * 1 == lhs.rows);
        assert(rhs@.len() == lhs.rows);
    }
    col_op_slice_mut(
        lhs.data.as_slice(),
        lhs.rows,
        lhs.cols,
        rhs.data.as_slice(),
        data.as_mut_slice(),
        f,
    );
    Result::Ok(device.wrap(data, lhs.rows, lhs.cols, ident))
}

} // verus!
