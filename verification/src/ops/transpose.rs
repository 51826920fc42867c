//! The transpose engine: an index-remapping transform producing a fully
//! materialized `cols x rows` matrix from a `rows x cols` one, with the
//! round-trip law that transposing twice gives the original back.
use vstd::prelude::*;

use vstd::arithmetic::div_mod::lemma_fundamental_div_mod;
use vstd::arithmetic::div_mod::lemma_fundamental_div_mod_converse;

use crate::cpu::lemma_cell_in_bounds;
use crate::cpu::lemma_cells_differ;
use crate::cpu::Host;
use crate::Ident;
use crate::Matrix;

verus! {

/// The transpose of a `rows x cols` row-major sequence: output position
/// `j*rows + i` holds input element `i*cols + j`, so the output reads as a
/// `cols x rows` matrix.
pub open spec fn transpose_spec<T>(s: Seq<T>, rows: int, cols: int) -> Seq<T>
    recommends
        s.len() == rows * cols,
{
    Seq::new((rows * cols) as nat, |n: int| s[(n % rows) * cols + n / rows])
}

/// Writes the transpose of the `rows x cols` matrix `a` into `b`: for every
/// source cell `(i, j)`, `b[j*rows + i] == a[i*cols + j]`.
pub fn slice_transpose<T: Copy>(rows: usize, cols: usize, a: &[T], b: &mut [T])
    requires
        a@.len() == rows * cols,
        old(b)@.len() == rows * cols,
    ensures
        final(b)@.len() == rows * cols,
        forall|i: int, j: int|
            0 <= i < rows && 0 <= j < cols ==> #[trigger] final(b)@[j * rows + i] == a@[i * cols
                + j],
{
    let _len_fits: usize = a.len();
    proof {
        assert(rows * cols <= usize::MAX);
    }
    let mut i: usize = 0;
    while i < rows
        invariant
            a@.len() == rows * cols,
            b@.len() == rows * cols,
            rows * cols <= usize::MAX,
            i <= rows,
            forall|r: int, c: int|
                0 <= r < i && 0 <= c < cols ==> #[trigger] b@[c * rows + r] == a@[r * cols + c],
        decreases rows - i,
    {
        proof {
            lemma_row_bound(i as int, rows as int, cols as int);
        }
        let index = i * cols;
        let mut j: usize = 0;
        while j < cols
            invariant
                a@.len() == rows * cols,
                b@.len() == rows * cols,
                rows * cols <= usize::MAX,
                i < rows,
                j <= cols,
                index == i * cols,
                index + cols <= rows * cols,
                forall|r: int, c: int|
                    0 <= r < i && 0 <= c < cols ==> #[trigger] b@[c * rows + r] == a@[r * cols
                        + c],
                forall|c: int|
                    0 <= c < j ==> #[trigger] b@[c * rows + i as int] == a@[i as int * cols + c],
            decreases cols - j,
        {
            proof {
                lemma_cell_in_bounds(j as int, i as int, cols as int, rows as int);
            }
            let ghost prev = b@;
            let idx = j * rows + i;
            b[idx] = a[index + j];
            proof {
                assert forall|c: int, r: int|
                    0 <= c < cols && 0 <= r < rows && !(c == j as int && r == i as int)
                        implies #[trigger] b@[c * rows + r] == prev[c * rows + r] by {
                    lemma_cell_in_bounds(c, r, cols as int, rows as int);
                    if c != j as int {
                        lemma_cells_differ(j as int, i as int, c, r, rows as int);
                    }
                }
            }
            j += 1;
        }
        i += 1;
    }
}

/// Row `i` of a `rows x cols` buffer starts at a nonnegative index and ends
/// within the buffer.
proof fn lemma_row_bound(i: int, rows: int, cols: int)
    requires
        0 <= i < rows,
        0 <= cols,
    ensures
        i * cols + cols <= rows * cols,
        0 <= i * cols,
{
    assert(i * cols + cols <= rows * cols && 0 <= i * cols) by (nonlinear_arith)
        requires
            0 <= i < rows,
            0 <= cols,
    ;
}

/// An output position `n < rows*cols` of a transpose decomposes as
/// `n = j*rows + i` with `i = n % rows`, `j = n / rows` in range.
proof fn lemma_transpose_index(n: int, rows: int, cols: int)
    requires
        0 <= n < rows * cols,
        rows > 0,
    ensures
        0 <= n % rows < rows,
        0 <= n / rows < cols,
        (n / rows) * rows + (n % rows) == n,
{
    lemma_fundamental_div_mod(n, rows);
    assert((n / rows) * rows == rows * (n / rows)) by (nonlinear_arith);
    assert(n / rows < cols) by (nonlinear_arith)
        requires
            0 <= n < rows * cols,
            rows > 0,
            n == rows * (n / rows) + n % rows,
            0 <= n % rows < rows,
    ;
}

/// The elementwise transpose facts pin the whole output sequence down: a
/// buffer of the right length whose cells satisfy them is the transpose.
pub proof fn lemma_transpose_view<T>(s: Seq<T>, t: Seq<T>, rows: int, cols: int)
    requires
        rows >= 0,
        cols >= 0,
        s.len() == rows * cols,
        t.len() == rows * cols,
        forall|i: int, j: int|
            0 <= i < rows && 0 <= j < cols ==> #[trigger] t[j * rows + i] == s[i * cols + j],
    ensures
        t == transpose_spec(s, rows, cols),
{
    let tr = transpose_spec(s, rows, cols);
    assert forall|n: int| 0 <= n < t.len() implies t[n] == tr[n] by {
        assert(rows > 0) by (nonlinear_arith)
            requires
                0 <= n < rows * cols,
                rows >= 0,
        ;
        lemma_transpose_index(n, rows, cols);
        let i = n % rows;
        let j = n / rows;
        assert(t[j * rows + i] == s[i * cols + j]);
    }
    assert(t =~= tr);
}

/// Transposing twice gives the original sequence back, for every shape,
/// degenerate single-row and single-column shapes included.
pub proof fn lemma_transpose_involutive<T>(s: Seq<T>, rows: int, cols: int)
    requires
        rows >= 0,
        cols >= 0,
        s.len() == rows * cols,
    ensures
        transpose_spec(transpose_spec(s, rows, cols), cols, rows) == s,
{
    let t = transpose_spec(s, rows, cols);
    let u = transpose_spec(t, cols, rows);
    assert(u.len() == s.len()) by (nonlinear_arith)
        requires
            u.len() == cols * rows,
            s.len() == rows * cols,
    ;
    assert forall|n: int| 0 <= n < s.len() implies u[n] == s[n] by {
        assert(cols > 0 && rows > 0) by (nonlinear_arith)
            requires
                0 <= n < rows * cols,
                rows >= 0,
                cols >= 0,
        ;
        lemma_transpose_index(n, cols, rows);
        let j = n % cols;
        let i = n / cols;
        // u reads t at the remapped position, which decomposes back.
        let m = j * rows + i;
        lemma_cell_in_bounds(j, i, cols, rows);
        lemma_fundamental_div_mod_converse(m, rows, j, i);
        assert(u[n] == t[(n % cols) * rows + n / cols]);
        assert(t[m] == s[(m % rows) * cols + m / rows]);
        assert(i * cols + j == n);
    }
    assert(u =~= s);
}

/// The capability a device needs for transposition: a fully materialized
/// `cols x rows` output holding the index-remapped input, never a view
/// aliasing it.
pub trait TransposeOp<T: Copy>: Sized {
    fn transpose(&mut self, x: &Matrix<T>) -> (out: Matrix<T>)
        requires
            x.wf(),
        ensures
            out.wf(),
            out.rows == x.cols,
            out.cols == x.rows,
            out@ == transpose_spec(x@, x.rows as int, x.cols as int),
    ;
}

impl<T: Copy> TransposeOp<T> for Host<T> {
    /// The host transpose: retrieves an output buffer from the cache under
    /// `x`'s identity, then runs the index-remapping loop over it.
    fn transpose(&mut self, x: &Matrix<T>) -> (out: Matrix<T>) {
        let ident = Ident { left: x.node, right: 0 };
        let mut data = if x.data.len() == 0 {
            Vec::new()
        } else {
            let fill = x.data[0];
            self.retrieve(ident, x.data.len(), fill)
        };
        slice_transpose(x.rows, x.cols, x.data.as_slice(), data.as_mut_slice());
        proof {
            lemma_transpose_view(x@, data@, x.rows as int, x.cols as int);
            assert(data@.len() == x.cols * x.rows) by (nonlinear_arith)
                requires
                    data@.len() == x.rows * x.cols,
            ;
        }
        self.wrap(data, x.cols, x.rows, ident)
    }
}

impl<T: Copy> Matrix<T> {
    /// The matrix-side transpose entry point: resolves statically to the
    /// owning device's `TransposeOp` implementation.
    #[allow(non_snake_case)]
    pub fn T<D: TransposeOp<T>>(&self, device: &mut D) -> (out: Matrix<T>)
        requires
            self.wf(),
        ensures
            out.wf(),
            out.rows == self.cols,
            out.cols == self.rows,
            out@ == transpose_spec(self@, self.rows as int, self.cols as int),
    {
        device.transpose(self)
    }
}

} // verus!
