//! A host-side matrix-operation engine: elementwise transforms, scalar and
//! row/column broadcasts, reductions, transposition and diagonal construction
//! over a contiguous row-major buffer, together with the buffer cache and the
//! operation-trait dispatch layer that route every operation to the device
//! that owns the operands.
use vstd::prelude::*;

pub mod cache;
pub mod cpu;
pub mod opencl;
pub mod ops;
pub mod switching;

verus! {

/// Errors an operation can report. Shape preconditions are checked eagerly at
/// the start of an operation; nothing is computed when they fail.
#[derive(Clone, Copy, Debug, PartialEq, Eq, Structural)]
pub enum OpError {
    /// A broadcast operand does not have the shape the operation demands.
    ShapeMismatch,
}

/// Whether a mathematical integer fits the signed 32-bit element type.
pub open spec fn in_i32(v: int) -> bool {
    i32::MIN <= v <= i32::MAX
}

/// The magnitude of an integer.
pub open spec fn abs_int(v: int) -> int {
    if v < 0 {
        -v
    } else {
        v
    }
}

/// Truncating integer division, rounding toward zero: the machine convention
/// for signed division. The magnitudes divide and the signs combine, so the
/// quotient of same-signed operands is nonnegative.
pub open spec fn div_trunc(a: int, b: int) -> int
    recommends
        b != 0,
{
    if (a < 0) != (b < 0) {
        -(abs_int(a) / abs_int(b))
    } else {
        abs_int(a) / abs_int(b)
    }
}

/// An allocation identity: the node identities of the inputs an output
/// buffer was requested for. The buffer cache reuses a released buffer only
/// for a request with the same identity and the same element count.
#[derive(Clone, Copy, Debug, PartialEq, Eq, Structural)]
pub struct Ident {
    pub left: u64,
    pub right: u64,
}

/// A matrix: a contiguous row-major buffer, a `(rows, cols)` shape, a node
/// identity of its own and the allocation identity under which its buffer
/// was requested.
///
/// Identities track allocation provenance only; no contract of an operation
/// depends on them or on what a freshly retrieved buffer holds.
pub struct Matrix<T> {
    pub data: Vec<T>,
    pub rows: usize,
    pub cols: usize,
    /// This matrix's own node identity, assigned by the owning device.
    pub node: u64,
    /// The identity its buffer was requested under; a released buffer goes
    /// back to the cache under this key.
    pub prov: Ident,
}

impl<T> View for Matrix<T> {
    type V = Seq<T>;

    open spec fn view(&self) -> Seq<T> {
        self.data@
    }
}

impl<T> Matrix<T> {
    /// The single structural invariant: the buffer holds exactly one element
    /// per matrix position.
    pub open spec fn wf(&self) -> bool {
        self.data@.len() == self.rows * self.cols
    }

    pub fn rows(&self) -> (r: usize)
        ensures
            r == self.rows,
    {
        self.rows
    }

    pub fn cols(&self) -> (r: usize)
        ensures
            r == self.cols,
    {
        self.cols
    }

    pub fn size(&self) -> (r: usize)
        requires
            self.wf(),
        ensures
            r == self@.len(),
    {
        self.data.len()
    }

    pub open spec fn dims_spec(&self) -> (usize, usize) {
        (self.rows, self.cols)
    }

    pub fn dims(&self) -> (r: (usize, usize))
        ensures
            r == self.dims_spec(),
    {
        (self.rows, self.cols)
    }
}

impl<T: Copy> Matrix<T> {
    /// A copy of the matrix contents, row-major.
    pub fn read(&self) -> (r: Vec<T>)
        ensures
            r@ == self@,
    {
        let mut out: Vec<T> = Vec::new();
        let mut i: usize = 0;
        while i < self.data.len()
            invariant
                i <= self.data@.len(),
                out@ == self.data@.subrange(0, i as int),
            decreases self.data@.len() - i,
        {
            out.push(self.data[i]);
            i += 1;
        }
        proof {
            assert(out@ =~= self.data@);
        }
        out
    }
}

} // verus!
