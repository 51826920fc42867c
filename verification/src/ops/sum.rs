//! The reduction engine: full-matrix sum and mean, and the axis-wise row
//! and column sums, with the decomposition law that the full sum equals the
//! sum of either axis's sums.
//!
//! Accumulation is row-major and left to right throughout, so results are
//! reproducible; the preconditions demand exactly that no intermediate
//! accumulator leaves the element type.
use vstd::prelude::*;

use vstd::arithmetic::div_mod::lemma_div_is_ordered;
use vstd::arithmetic::div_mod::lemma_div_multiples_vanish;
use vstd::arithmetic::div_mod::lemma_div_nonincreasing;
use vstd::arithmetic::div_mod::lemma_div_pos_is_pos;

use crate::cpu::lemma_cell_in_bounds;
use crate::cpu::lemma_row_start_in_bounds;
use crate::cpu::Host;
use crate::div_trunc;
use crate::in_i32;
use crate::Ident;
use crate::Matrix;

verus! {

/// The elements of a buffer as unbounded integers.
pub open spec fn view_int(s: Seq<i32>) -> Seq<int> {
    s.map_values(|v: i32| v as int)
}

/// The sum of a sequence, accumulated left to right.
pub open spec fn sum_seq(s: Seq<int>) -> int
    decreases s.len(),
{
    if s.len() == 0 {
        0
    } else {
        sum_seq(s.drop_last()) + s.last()
    }
}

/// Every left-to-right partial sum stays within the element type: the
/// condition under which a single accumulating pass cannot overflow.
pub open spec fn prefix_sums_fit(s: Seq<int>) -> bool {
    forall|k: int| 0 <= k <= s.len() ==> in_i32(#[trigger] sum_seq(s.take(k)))
}

/// The sum of the first `k` elements of column `j` of a row-major
/// `rows x cols` buffer.
pub open spec fn col_sum(s: Seq<int>, cols: int, j: int, k: int) -> int
    decreases k,
{
    if k <= 0 {
        0
    } else {
        col_sum(s, cols, j, k - 1) + s[(k - 1) * cols + j]
    }
}

/// The sum of the first `k` elements of row `i` of a row-major buffer.
pub open spec fn row_sum(s: Seq<int>, cols: int, i: int, k: int) -> int
    decreases k,
{
    if k <= 0 {
        0
    } else {
        row_sum(s, cols, i, k - 1) + s[i * cols + (k - 1)]
    }
}

/// Every partial column sum stays within the element type.
pub open spec fn col_sums_fit(s: Seq<int>, rows: int, cols: int) -> bool {
    forall|j: int, k: int|
        0 <= j < cols && 0 <= k <= rows ==> in_i32(#[trigger] col_sum(s, cols, j, k))
}

/// Every partial row sum stays within the element type.
pub open spec fn row_sums_fit(s: Seq<int>, rows: int, cols: int) -> bool {
    forall|i: int, k: int|
        0 <= i < rows && 0 <= k <= cols ==> in_i32(#[trigger] row_sum(s, cols, i, k))
}

/// The full-reduction capability of a device: `sum` collapses the whole
/// matrix to one scalar, `mean` divides that scalar by the element count.
pub trait SumOps<T: Copy>: Sized {
    /// The inputs `sum` accepts.
    spec fn sum_req(x: Seq<T>) -> bool;

    /// The value `sum` returns.
    spec fn sum_value(x: Seq<T>) -> T;

    /// The inputs `mean` accepts.
    spec fn mean_req(x: Seq<T>) -> bool;

    /// The value `mean` returns.
    spec fn mean_value(x: Seq<T>) -> T;

    fn sum(&self, x: &Matrix<T>) -> (r: T)
        requires
            x.wf(),
            Self::sum_req(x@),
        ensures
            r == Self::sum_value(x@),
    ;

    fn mean(&self, x: &Matrix<T>) -> (r: T)
        requires
            x.wf(),
            Self::mean_req(x@),
        ensures
            r == Self::mean_value(x@),
    ;
}

/// The axis-wise reduction capability of a device: `sum_rows` collapses the
/// rows onto one `1 x cols` row of column sums, `sum_cols` collapses the
/// columns onto one `rows x 1` column of row sums.
pub trait SumOverOps<T: Copy>: Sized {
    /// The inputs `sum_rows` accepts.
    spec fn sum_rows_req(x: Seq<T>, rows: int, cols: int) -> bool;

    /// The value of output column `j` of `sum_rows`.
    spec fn col_sum_value(x: Seq<T>, rows: int, cols: int, j: int) -> T;

    /// The inputs `sum_cols` accepts.
    spec fn sum_cols_req(x: Seq<T>, rows: int, cols: int) -> bool;

    /// The value of output row `i` of `sum_cols`.
    spec fn row_sum_value(x: Seq<T>, cols: int, i: int) -> T;

    fn sum_rows(&mut self, x: &Matrix<T>) -> (out: Matrix<T>)
        requires
            x.wf(),
            Self::sum_rows_req(x@, x.rows as int, x.cols as int),
        ensures
            out.wf(),
            out.rows == 1,
            out.cols == x.cols,
            forall|j: int|
                0 <= j < x.cols ==> #[trigger] out@[j] == Self::col_sum_value(
                    x@,
                    x.rows as int,
                    x.cols as int,
                    j,
                ),
    ;

    fn sum_cols(&mut self, x: &Matrix<T>) -> (out: Matrix<T>)
        requires
            x.wf(),
            Self::sum_cols_req(x@, x.rows as int, x.cols as int),
        ensures
            out.wf(),
            out.rows == x.rows,
            out.cols == 1,
            forall|i: int|
                0 <= i < x.rows ==> #[trigger] out@[i] == Self::row_sum_value(
                    x@,
                    x.cols as int,
                    i,
                ),
    ;
}

impl SumOps<i32> for Host<i32> {
    open spec fn sum_req(x: Seq<i32>) -> bool {
        prefix_sums_fit(view_int(x))
    }

    open spec fn sum_value(x: Seq<i32>) -> i32 {
        sum_seq(view_int(x)) as i32
    }

    open spec fn mean_req(x: Seq<i32>) -> bool {
        x.len() > 0 && prefix_sums_fit(view_int(x))
    }

    open spec fn mean_value(x: Seq<i32>) -> i32 {
        div_trunc(sum_seq(view_int(x)), x.len() as int) as i32
    }

    /// One pass over the buffer, row-major left to right, seeded with the
    /// additive identity.
    fn sum(&self, x: &Matrix<i32>) -> (r: i32) {
        let ghost vi = view_int(x@);
        let n = x.data.len();
        let mut acc: i32 = 0;
        let mut i: usize = 0;
        proof {
            assert(vi.take(0) =~= Seq::<int>::empty());
        }
        while i < n
            invariant
                n == x@.len(),
                vi == view_int(x@),
                prefix_sums_fit(vi),
                i <= n,
                acc as int == sum_seq(vi.take(i as int)),
            decreases n - i,
        {
            proof {
                assert(vi.take(i as int + 1).drop_last() =~= vi.take(i as int));
                assert(vi.take(i as int + 1).last() == vi[i as int]);
                assert(vi[i as int] == x@[i as int] as int);
                assert(in_i32(sum_seq(vi.take(i as int + 1))));
            }
            acc = acc + x.data[i];
            i += 1;
        }
        proof {
            assert(in_i32(sum_seq(vi.take(n as int))));
            assert(vi.take(n as int) =~= vi);
        }
        acc
    }

    /// The sum divided by the element count, rounding toward zero.
    fn mean(&self, x: &Matrix<i32>) -> (r: i32) {
        let s = self.sum(x);
        proof {
            let vi = view_int(x@);
            assert(in_i32(sum_seq(vi.take(x@.len() as int))));
            assert(vi.take(x@.len() as int) =~= vi);
        }
        div_by_count(s, x.data.len())
    }
}

/// Truncating division of an element sum by a positive element count.
fn div_by_count(s: i32, n: usize) -> (r: i32)
    requires
        n >= 1,
    ensures
        r as int == div_trunc(s as int, n as int),
{
    let nu: u64 = n as u64;
    let mag: u64 = if s < 0 {
        (-(s as i64)) as u64
    } else {
        s as u64
    };
    let q: u64 = mag / nu;
    proof {
        lemma_div_pos_is_pos(mag as int, nu as int);
        lemma_div_nonincreasing(mag as int, nu as int);
    }
    let qi: i64 = q as i64;
    let r: i64 = if s < 0 {
        -qi
    } else {
        qi
    };
    r as i32
}

impl SumOverOps<i32> for Host<i32> {
    open spec fn sum_rows_req(x: Seq<i32>, rows: int, cols: int) -> bool {
        col_sums_fit(view_int(x), rows, cols)
    }

    open spec fn col_sum_value(x: Seq<i32>, rows: int, cols: int, j: int) -> i32 {
        col_sum(view_int(x), cols, j, rows) as i32
    }

    open spec fn sum_cols_req(x: Seq<i32>, rows: int, cols: int) -> bool {
        row_sums_fit(view_int(x), rows, cols)
    }

    open spec fn row_sum_value(x: Seq<i32>, cols: int, i: int) -> i32 {
        row_sum(view_int(x), cols, i, cols) as i32
    }

    /// Zero-fills the `1 x cols` accumulator buffer — a cache-reused buffer
    /// holds stale data, so the zeroing can never be skipped — then adds
    /// each row into it, row-major.
    fn sum_rows(&mut self, x: &Matrix<i32>) -> (out: Matrix<i32>) {
        let ghost vi = view_int(x@);
        let rows = x.rows;
        let cols = x.cols;
        let _len_fits: usize = x.data.len();
        proof {
            assert(rows * cols <= usize::MAX);
        }
        let ident = Ident { left: x.node, right: 0 };
        let mut data = if cols == 0 {
            Vec::new()
        } else {
            self.retrieve(ident, cols, 0)
        };
        let mut z: usize = 0;
        while z < cols
            invariant
                data@.len() == cols,
                z <= cols,
                forall|p: int| 0 <= p < z ==> #[trigger] data@[p] == 0i32,
            decreases cols - z,
        {
            data[z] = 0;
            z += 1;
        }
        let mut i: usize = 0;
        while i < rows
            invariant
                data@.len() == cols,
                x@.len() == rows * cols,
                rows * cols <= usize::MAX,
                vi == view_int(x@),
                vi.len() == x@.len(),
                col_sums_fit(vi, rows as int, cols as int),
                i <= rows,
                forall|p: int|
                    0 <= p < cols ==> #[trigger] data@[p] as int == col_sum(
                        vi,
                        cols as int,
                        p,
                        i as int,
                    ),
            decreases rows - i,
        {
            proof {
                lemma_row_start_in_bounds(i as int, rows as int, cols as int);
            }
            let index = i * cols;
            let mut j: usize = 0;
            while j < cols
                invariant
                    data@.len() == cols,
                    x@.len() == rows * cols,
                    rows * cols <= usize::MAX,
                    vi == view_int(x@),
                    vi.len() == x@.len(),
                    col_sums_fit(vi, rows as int, cols as int),
                    i < rows,
                    j <= cols,
                    index == i * cols,
                    index + cols <= rows * cols,
                    forall|p: int|
                        j <= p < cols ==> #[trigger] data@[p] as int == col_sum(
                            vi,
                            cols as int,
                            p,
                            i as int,
                        ),
                    forall|p: int|
                        0 <= p < j ==> #[trigger] data@[p] as int == col_sum(
                            vi,
                            cols as int,
                            p,
                            i as int + 1,
                        ),
                decreases cols - j,
            {
                proof {
                    assert(vi[index + j] == x@[index + j] as int);
                    assert(col_sum(vi, cols as int, j as int, i as int + 1) == col_sum(
                        vi,
                        cols as int,
                        j as int,
                        i as int,
                    ) + vi[i as int * cols + j as int]);
                    assert(in_i32(col_sum(vi, cols as int, j as int, i as int + 1)));
                }
                let v = data[j] + x.data[index + j];
                data[j] = v;
                j += 1;
            }
            i += 1;
        }
        proof {
            assert(data@.len() == 1 * cols);
        }
        self.wrap(data, 1, cols, ident)
    }

    /// One local accumulator per row, written once: no interim buffer
    /// mutation, and no zero-fill needed.
    fn sum_cols(&mut self, x: &Matrix<i32>) -> (out: Matrix<i32>) {
        let ghost vi = view_int(x@);
        let rows = x.rows;
        let cols = x.cols;
        let _len_fits: usize = x.data.len();
        proof {
            assert(rows * cols <= usize::MAX);
        }
        let ident = Ident { left: x.node, right: 0 };
        let mut data = if rows == 0 {
            Vec::new()
        } else {
            self.retrieve(ident, rows, 0)
        };
        let mut i: usize = 0;
        while i < rows
            invariant
                data@.len() == rows,
                x@.len() == rows * cols,
                rows * cols <= usize::MAX,
                vi == view_int(x@),
                vi.len() == x@.len(),
                row_sums_fit(vi, rows as int, cols as int),
                i <= rows,
                forall|r: int|
                    0 <= r < i ==> #[trigger] data@[r] as int == row_sum(
                        vi,
                        cols as int,
                        r,
                        cols as int,
                    ),
            decreases rows - i,
        {
            proof {
                lemma_row_start_in_bounds(i as int, rows as int, cols as int);
            }
            let index = i * cols;
            let mut acc: i32 = 0;
            let mut j: usize = 0;
            while j < cols
                invariant
                    x@.len() == rows * cols,
                    rows * cols <= usize::MAX,
                    vi == view_int(x@),
                    vi.len() == x@.len(),
                    row_sums_fit(vi, rows as int, cols as int),
                    i < rows,
                    j <= cols,
                    index == i * cols,
                    index + cols <= rows * cols,
                    acc as int == row_sum(vi, cols as int, i as int, j as int),
                decreases cols - j,
            {
                proof {
                    assert(vi[index + j] == x@[index + j] as int);
                    assert(row_sum(vi, cols as int, i as int, j as int + 1) == row_sum(
                        vi,
                        cols as int,
                        i as int,
                        j as int,
                    ) + vi[i as int * cols + j as int]);
                    assert(in_i32(row_sum(vi, cols as int, i as int, j as int + 1)));
                }
                acc = acc + x.data[index + j];
                j += 1;
            }
            data[i] = acc;
            i += 1;
        }
        proof {
            assert(data@.len() == rows * 1);
        }
        self.wrap(data, rows, 1, ident)
    }
}

impl<T: Copy> Matrix<T> {
    /// The sum of every element, on the owning device.
    pub fn sum<D: SumOps<T>>(&self, device: &D) -> (r: T)
        requires
            self.wf(),
            D::sum_req(self@),
        ensures
            r == D::sum_value(self@),
    {
        device.sum(self)
    }

    /// The mean of every element, on the owning device.
    pub fn mean<D: SumOps<T>>(&self, device: &D) -> (r: T)
        requires
            self.wf(),
            D::mean_req(self@),
        ensures
            r == D::mean_value(self@),
    {
        device.mean(self)
    }

    /// The `1 x cols` row of column sums, on the owning device.
    pub fn sum_rows<D: SumOverOps<T>>(&self, device: &mut D) -> (out: Matrix<T>)
        requires
            self.wf(),
            D::sum_rows_req(self@, self.rows as int, self.cols as int),
        ensures
            out.wf(),
            out.rows == 1,
            out.cols == self.cols,
            forall|j: int|
                0 <= j < self.cols ==> #[trigger] out@[j] == D::col_sum_value(
                    self@,
                    self.rows as int,
                    self.cols as int,
                    j,
                ),
    {
        device.sum_rows(self)
    }

    /// The `rows x 1` column of row sums, on the owning device.
    pub fn sum_cols<D: SumOverOps<T>>(&self, device: &mut D) -> (out: Matrix<T>)
        requires
            self.wf(),
            D::sum_cols_req(self@, self.rows as int, self.cols as int),
        ensures
            out.wf(),
            out.rows == self.rows,
            out.cols == 1,
            forall|i: int|
                0 <= i < self.rows ==> #[trigger] out@[i] == D::row_sum_value(
                    self@,
                    self.cols as int,
                    i,
                ),
    {
        device.sum_cols(self)
    }
}


/// Concatenation splits a sum.
pub proof fn lemma_sum_seq_append(a: Seq<int>, b: Seq<int>)
    ensures
        sum_seq(a + b) == sum_seq(a) + sum_seq(b),
    decreases b.len(),
{
    if b.len() == 0 {
        assert(a + b =~= a);
    } else {
        assert((a + b).drop_last() =~= a + b.drop_last());
        lemma_sum_seq_append(a, b.drop_last());
        assert((a + b).last() == b.last());
    }
}

/// A partial row sum is the sum of the row's contiguous segment.
pub proof fn lemma_row_sum_subrange(s: Seq<int>, cols: int, i: int, k: int)
    requires
        0 <= k <= cols,
        0 <= i * cols,
        i * cols + cols <= s.len(),
    ensures
        row_sum(s, cols, i, k) == sum_seq(s.subrange(i * cols, i * cols + k)),
    decreases k,
{
    if k <= 0 {
        assert(s.subrange(i * cols, i * cols) =~= Seq::<int>::empty());
    } else {
        lemma_row_sum_subrange(s, cols, i, k - 1);
        assert(s.subrange(i * cols, i * cols + k).drop_last() =~= s.subrange(
            i * cols,
            i * cols + k - 1,
        ));
        assert(s.subrange(i * cols, i * cols + k).last() == s[i * cols + k - 1]);
    }
}

/// Pointwise addition of two indexed families splits their sum.
proof fn lemma_sum_new_pointwise_add(
    n: nat,
    f: spec_fn(int) -> int,
    g: spec_fn(int) -> int,
    h: spec_fn(int) -> int,
)
    requires
        forall|j: int| 0 <= j < n ==> #[trigger] h(j) == f(j) + g(j),
    ensures
        sum_seq(Seq::new(n, h)) == sum_seq(Seq::new(n, f)) + sum_seq(Seq::new(n, g)),
    decreases n,
{
    if n == 0 {
        assert(Seq::new(0, h) =~= Seq::<int>::empty());
        assert(Seq::new(0, f) =~= Seq::<int>::empty());
        assert(Seq::new(0, g) =~= Seq::<int>::empty());
    } else {
        lemma_sum_new_pointwise_add((n - 1) as nat, f, g, h);
        assert(Seq::new(n, h).drop_last() =~= Seq::new((n - 1) as nat, h));
        assert(Seq::new(n, f).drop_last() =~= Seq::new((n - 1) as nat, f));
        assert(Seq::new(n, g).drop_last() =~= Seq::new((n - 1) as nat, g));
    }
}

/// A family of zeros sums to zero.
proof fn lemma_sum_new_zero(n: nat, f: spec_fn(int) -> int)
    requires
        forall|j: int| 0 <= j < n ==> #[trigger] f(j) == 0,
    ensures
        sum_seq(Seq::new(n, f)) == 0,
    decreases n,
{
    if n == 0 {
        assert(Seq::new(0, f) =~= Seq::<int>::empty());
    } else {
        lemma_sum_new_zero((n - 1) as nat, f);
        assert(Seq::new(n, f).drop_last() =~= Seq::new((n - 1) as nat, f));
    }
}

/// The sums of the first `r` rows add up to the sum of the first `r*cols`
/// elements.
proof fn lemma_rows_total_take(s: Seq<int>, cols: int, r: int)
    requires
        cols >= 0,
        0 <= r,
        r * cols <= s.len(),
    ensures
        sum_seq(Seq::new(r as nat, |i: int| row_sum(s, cols, i, cols))) == sum_seq(
            s.take(r * cols),
        ),
    decreases r,
{
    let rs = Seq::new(r as nat, |i: int| row_sum(s, cols, i, cols));
    if r == 0 {
        assert(r * cols == 0) by (nonlinear_arith)
            requires
                r == 0,
        ;
        assert(rs =~= Seq::<int>::empty());
        assert(s.take(0) =~= Seq::<int>::empty());
    } else {
        let m = (r - 1) * cols;
        assert(0 <= m && m + cols == r * cols) by (nonlinear_arith)
            requires
                r >= 1,
                cols >= 0,
                m == (r - 1) * cols,
        ;
        lemma_rows_total_take(s, cols, r - 1);
        assert(rs.drop_last() =~= Seq::new((r - 1) as nat, |i: int| row_sum(s, cols, i, cols)));
        lemma_row_sum_subrange(s, cols, r - 1, cols);
        assert(s.take(r * cols) =~= s.take(m) + s.subrange(m, m + cols));
        lemma_sum_seq_append(s.take(m), s.subrange(m, m + cols));
        assert(rs.last() == sum_seq(s.subrange(m, m + cols)));
    }
}

/// The sums of all `cols` columns over the first `r` rows add up to the sum
/// of the first `r*cols` elements.
proof fn lemma_cols_total_take(s: Seq<int>, cols: int, r: int)
    requires
        cols >= 0,
        0 <= r,
        r * cols <= s.len(),
    ensures
        sum_seq(Seq::new(cols as nat, |j: int| col_sum(s, cols, j, r))) == sum_seq(
            s.take(r * cols),
        ),
    decreases r,
{
    let cs = Seq::new(cols as nat, |j: int| col_sum(s, cols, j, r));
    if r == 0 {
        assert(r * cols == 0) by (nonlinear_arith)
            requires
                r == 0,
        ;
        lemma_sum_new_zero(cols as nat, |j: int| col_sum(s, cols, j, 0));
        assert(s.take(0) =~= Seq::<int>::empty());
    } else {
        let m = (r - 1) * cols;
        assert(0 <= m && m + cols == r * cols) by (nonlinear_arith)
            requires
                r >= 1,
                cols >= 0,
                m == (r - 1) * cols,
        ;
        lemma_cols_total_take(s, cols, r - 1);
        let f = |j: int| col_sum(s, cols, j, r - 1);
        let g = |j: int| s[m + j];
        let h = |j: int| col_sum(s, cols, j, r);
        assert forall|j: int| 0 <= j < cols implies #[trigger] h(j) == f(j) + g(j) by {
            assert(col_sum(s, cols, j, r) == col_sum(s, cols, j, r - 1) + s[(r - 1) * cols + j]);
        }
        lemma_sum_new_pointwise_add(cols as nat, f, g, h);
        assert(Seq::new(cols as nat, g) =~= s.subrange(m, m + cols));
        assert(s.take(r * cols) =~= s.take(m) + s.subrange(m, m + cols));
        lemma_sum_seq_append(s.take(m), s.subrange(m, m + cols));
        assert(cs =~= Seq::new(cols as nat, h));
        assert(Seq::new(cols as nat, f) =~= Seq::new(
            cols as nat,
            |j: int| col_sum(s, cols, j, r - 1),
        ));
    }
}

/// The decomposition law of the reduction engine: the full-matrix sum
/// equals the sum of the row sums, and equals the sum of the column sums.
/// Row and column sums are the exact values `sum_cols` and `sum_rows`
/// produce, so summing either output reproduces `sum` of the input.
pub proof fn lemma_sum_decomposition(s: Seq<int>, rows: int, cols: int)
    requires
        rows >= 0,
        cols >= 0,
        s.len() == rows * cols,
    ensures
        sum_seq(Seq::new(rows as nat, |i: int| row_sum(s, cols, i, cols))) == sum_seq(s),
        sum_seq(Seq::new(cols as nat, |j: int| col_sum(s, cols, j, rows))) == sum_seq(s),
{
    lemma_rows_total_take(s, cols, rows);
    lemma_cols_total_take(s, cols, rows);
    assert(s.take(rows * cols) =~= s);
}


/// Every element of an integer buffer, read as an unbounded integer, lies
/// within the element type's range.
pub proof fn lemma_view_int_bounds(s: Seq<i32>)
    ensures
        view_int(s).len() == s.len(),
        forall|i: int|
            0 <= i < s.len() ==> i32::MIN <= #[trigger] view_int(s)[i] <= i32::MAX,
{
}

/// A sum of `len` elements of the element type stays within `len` times the
/// type's bounds.
pub proof fn lemma_sum_seq_element_bound(s: Seq<int>)
    requires
        forall|i: int| 0 <= i < s.len() ==> i32::MIN <= #[trigger] s[i] <= i32::MAX,
    ensures
        s.len() * (i32::MIN as int) <= sum_seq(s) <= s.len() * (i32::MAX as int),
    decreases s.len(),
{
    if s.len() > 0 {
        lemma_sum_seq_element_bound(s.drop_last());
    }
}

/// The sum of every element, accumulated left to right in a wide register:
/// total in the element values, for any buffer the register can cover.
pub fn slice_sum_wide(x: &[i32]) -> (r: i64)
    requires
        x@.len() < 0x1_0000_0000,
    ensures
        r as int == sum_seq(view_int(x@)),
{
    let ghost vi = view_int(x@);
    proof {
        lemma_view_int_bounds(x@);
        assert(vi.take(0) =~= Seq::<int>::empty());
    }
    let n = x.len();
    let mut acc: i64 = 0;
    let mut i: usize = 0;
    while i < n
        invariant
            n == x@.len(),
            n < 0x1_0000_0000,
            vi == view_int(x@),
            vi.len() == n,
            forall|k: int| 0 <= k < vi.len() ==> i32::MIN <= #[trigger] vi[k] <= i32::MAX,
            i <= n,
            acc as int == sum_seq(vi.take(i as int)),
        decreases n - i,
    {
        proof {
            assert(vi.take(i as int + 1).drop_last() =~= vi.take(i as int));
            assert(vi.take(i as int + 1).last() == vi[i as int]);
            assert(vi[i as int] == x@[i as int] as int);
            assert forall|k: int|
                0 <= k < vi.take(i as int + 1).len() implies i32::MIN <= #[trigger] vi.take(
                i as int + 1,
            )[k] <= i32::MAX by {}
            lemma_sum_seq_element_bound(vi.take(i as int + 1));
        }
        acc = acc + x[i] as i64;
        i += 1;
    }
    proof {
        assert(vi.take(n as int) =~= vi);
    }
    acc
}


/// A partial column sum over `k` rows stays within `k` times the element
/// type's bounds.
pub proof fn lemma_col_sum_bound(s: Seq<int>, rows: int, cols: int, j: int, k: int)
    requires
        s.len() == rows * cols,
        0 <= j < cols,
        0 <= k <= rows,
        forall|i: int| 0 <= i < s.len() ==> i32::MIN <= #[trigger] s[i] <= i32::MAX,
    ensures
        k * (i32::MIN as int) <= col_sum(s, cols, j, k) <= k * (i32::MAX as int),
    decreases k,
{
    if k > 0 {
        lemma_col_sum_bound(s, rows, cols, j, k - 1);
        lemma_cell_in_bounds(k - 1, j, rows, cols);
    }
}

/// A partial row sum over `k` columns stays within `k` times the element
/// type's bounds.
pub proof fn lemma_row_sum_bound(s: Seq<int>, rows: int, cols: int, i: int, k: int)
    requires
        s.len() == rows * cols,
        0 <= i < rows,
        0 <= k <= cols,
        forall|p: int| 0 <= p < s.len() ==> i32::MIN <= #[trigger] s[p] <= i32::MAX,
    ensures
        k * (i32::MIN as int) <= row_sum(s, cols, i, k) <= k * (i32::MAX as int),
    decreases k,
{
    if k > 0 {
        lemma_row_sum_bound(s, rows, cols, i, k - 1);
        lemma_cell_in_bounds(i, k - 1, rows, cols);
    }
}

/// The column sums of a `rows x cols` buffer through a wide accumulator:
/// total in the element values. Returns the sums only when every one of
/// them fits the element type; otherwise nothing — never a wrapped or
/// partial result.
pub fn sum_rows_checked(x: &[i32], rows: usize, cols: usize) -> (out: Option<Vec<i32>>)
    requires
        x@.len() == rows * cols,
        rows < 0x1_0000_0000,
    ensures
        match out {
            Option::Some(v) => {
                &&& v@.len() == cols
                &&& forall|j: int|
                    0 <= j < cols ==> in_i32(
                        #[trigger] col_sum(view_int(x@), cols as int, j, rows as int),
                    )
                &&& forall|j: int|
                    0 <= j < cols ==> #[trigger] v@[j] as int == col_sum(
                        view_int(x@),
                        cols as int,
                        j,
                        rows as int,
                    )
            },
            Option::None => exists|j: int|
                0 <= j < cols && !in_i32(
                    #[trigger] col_sum(view_int(x@), cols as int, j, rows as int),
                ),
        },
{
    let ghost vi = view_int(x@);
    proof {
        lemma_view_int_bounds(x@);
    }
    let _len_fits: usize = x.len();
    proof {
        assert(rows * cols <= usize::MAX);
    }
    let mut out: Vec<i32> = Vec::new();
    let mut j: usize = 0;
    while j < cols
        invariant
            x@.len() == rows * cols,
            rows * cols <= usize::MAX,
            rows < 0x1_0000_0000,
            vi == view_int(x@),
            vi.len() == x@.len(),
            forall|p: int| 0 <= p < vi.len() ==> i32::MIN <= #[trigger] vi[p] <= i32::MAX,
            j <= cols,
            out@.len() == j,
            forall|p: int|
                0 <= p < j ==> in_i32(#[trigger] col_sum(vi, cols as int, p, rows as int)),
            forall|p: int|
                0 <= p < j ==> #[trigger] out@[p] as int == col_sum(
                    vi,
                    cols as int,
                    p,
                    rows as int,
                ),
        decreases cols - j,
    {
        let mut acc: i64 = 0;
        let mut i: usize = 0;
        while i < rows
            invariant
                x@.len() == rows * cols,
                rows * cols <= usize::MAX,
                rows < 0x1_0000_0000,
                vi == view_int(x@),
                vi.len() == x@.len(),
                forall|p: int| 0 <= p < vi.len() ==> i32::MIN <= #[trigger] vi[p] <= i32::MAX,
                j < cols,
                i <= rows,
                acc as int == col_sum(vi, cols as int, j as int, i as int),
            decreases rows - i,
        {
            proof {
                lemma_cell_in_bounds(i as int, j as int, rows as int, cols as int);
                lemma_col_sum_bound(vi, rows as int, cols as int, j as int, i as int + 1);
                assert(col_sum(vi, cols as int, j as int, i as int + 1) == col_sum(
                    vi,
                    cols as int,
                    j as int,
                    i as int,
                ) + vi[i as int * cols + j as int]);
                assert(vi[i as int * cols + j as int] == x@[i as int * cols + j as int] as int);
            }
            let idx = i * cols + j;
            acc = acc + x[idx] as i64;
            i += 1;
        }
        if acc < i32::MIN as i64 || acc > i32::MAX as i64 {
            proof {
                assert(!in_i32(col_sum(vi, cols as int, j as int, rows as int)));
            }
            return Option::None;
        }
        out.push(acc as i32);
        j += 1;
    }
    Option::Some(out)
}

/// The row sums of a `rows x cols` buffer through a wide accumulator:
/// total in the element values. Returns the sums only when every one of
/// them fits the element type; otherwise nothing — never a wrapped or
/// partial result.
pub fn sum_cols_checked(x: &[i32], rows: usize, cols: usize) -> (out: Option<Vec<i32>>)
    requires
        x@.len() == rows * cols,
        cols < 0x1_0000_0000,
    ensures
        match out {
            Option::Some(v) => {
                &&& v@.len() == rows
                &&& forall|i: int|
                    0 <= i < rows ==> in_i32(
                        #[trigger] row_sum(view_int(x@), cols as int, i, cols as int),
                    )
                &&& forall|i: int|
                    0 <= i < rows ==> #[trigger] v@[i] as int == row_sum(
                        view_int(x@),
                        cols as int,
                        i,
                        cols as int,
                    )
            },
            Option::None => exists|i: int|
                0 <= i < rows && !in_i32(
                    #[trigger] row_sum(view_int(x@), cols as int, i, cols as int),
                ),
        },
{
    let ghost vi = view_int(x@);
    proof {
        lemma_view_int_bounds(x@);
    }
    let _len_fits: usize = x.len();
    proof {
        assert(rows * cols <= usize::MAX);
    }
    let mut out: Vec<i32> = Vec::new();
    let mut i: usize = 0;
    while i < rows
        invariant
            x@.len() == rows * cols,
            rows * cols <= usize::MAX,
            cols < 0x1_0000_0000,
            vi == view_int(x@),
            vi.len() == x@.len(),
            forall|p: int| 0 <= p < vi.len() ==> i32::MIN <= #[trigger] vi[p] <= i32::MAX,
            i <= rows,
            out@.len() == i,
            forall|p: int|
                0 <= p < i ==> in_i32(#[trigger] row_sum(vi, cols as int, p, cols as int)),
            forall|p: int|
                0 <= p < i ==> #[trigger] out@[p] as int == row_sum(
                    vi,
                    cols as int,
                    p,
                    cols as int,
                ),
        decreases rows - i,
    {
        proof {
            lemma_row_start_in_bounds(i as int, rows as int, cols as int);
        }
        let index = i * cols;
        let mut acc: i64 = 0;
        let mut j: usize = 0;
        while j < cols
            invariant
                x@.len() == rows * cols,
                rows * cols <= usize::MAX,
                cols < 0x1_0000_0000,
                vi == view_int(x@),
                vi.len() == x@.len(),
                forall|p: int| 0 <= p < vi.len() ==> i32::MIN <= #[trigger] vi[p] <= i32::MAX,
                i < rows,
                j <= cols,
                index == i * cols,
                index + cols <= rows * cols,
                acc as int == row_sum(vi, cols as int, i as int, j as int),
            decreases cols - j,
        {
            proof {
                lemma_row_sum_bound(vi, rows as int, cols as int, i as int, j as int + 1);
                assert(row_sum(vi, cols as int, i as int, j as int + 1) == row_sum(
                    vi,
                    cols as int,
                    i as int,
                    j as int,
                ) + vi[i as int * cols + j as int]);
                assert(vi[index + j] == x@[index + j] as int);
            }
            acc = acc + x[index + j] as i64;
            j += 1;
        }
        if acc < i32::MIN as i64 || acc > i32::MAX as i64 {
            proof {
                assert(!in_i32(row_sum(vi, cols as int, i as int, cols as int)));
            }
            return Option::None;
        }
        out.push(acc as i32);
        i += 1;
    }
    Option::Some(out)
}

/// Truncating division of a wide sum by a positive element count. The sum
/// must stay within the count times the element type's bounds — what any
/// sum of that many elements satisfies — so the quotient always fits the
/// element type.
pub fn div_wide_by_count(w: i64, n: usize) -> (r: i32)
    requires
        n >= 1,
        i64::MIN < w,
        (n as int) * (i32::MIN as int) <= w as int <= (n as int) * (i32::MAX as int),
    ensures
        r as int == div_trunc(w as int, n as int),
{
    let nu: u64 = n as u64;
    let mag: u64 = if w < 0 {
        (-w) as u64
    } else {
        w as u64
    };
    let q: u64 = mag / nu;
    proof {
        lemma_div_pos_is_pos(mag as int, nu as int);
        if w >= 0 {
            lemma_div_is_ordered(mag as int, (nu as int) * (i32::MAX as int), nu as int);
            lemma_div_multiples_vanish(i32::MAX as int, nu as int);
        } else {
            lemma_div_is_ordered(mag as int, (nu as int) * 0x8000_0000, nu as int);
            lemma_div_multiples_vanish(0x8000_0000, nu as int);
        }
    }
    let qi: i64 = q as i64;
    let r: i64 = if w < 0 {
        -qi
    } else {
        qi
    };
    r as i32
}

} // verus!
