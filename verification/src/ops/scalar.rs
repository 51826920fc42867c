//! Scalar broadcast arithmetic: `adds`, `muls` and `divs` combine every
//! element of a matrix with one scalar. The capability trait fixes, per
//! device and element type, the exact value of every output element and the
//! inputs the operation accepts.
use vstd::prelude::*;

use vstd::arithmetic::div_mod::lemma_div_nonincreasing;
use vstd::arithmetic::div_mod::lemma_div_pos_is_pos;

use crate::cpu::scalar_apply;
use crate::cpu::Host;
use crate::div_trunc;
use crate::in_i32;
use crate::Matrix;

verus! {

/// The scalar-broadcast capability of a device: each method returns a new
/// matrix whose every element is the device's stated combination of the
/// corresponding input element and the scalar.
pub trait AdditionalOps<T: Copy>: Sized {
    /// The inputs `adds` accepts.
    spec fn adds_req(lhs: Seq<T>, rhs: T) -> bool;

    /// The value of one output element of `adds`.
    spec fn add_vals(a: T, b: T) -> T;

    /// The inputs `muls` accepts.
    spec fn muls_req(lhs: Seq<T>, rhs: T) -> bool;

    /// The value of one output element of `muls`.
    spec fn mul_vals(a: T, b: T) -> T;

    /// The inputs `divs` accepts.
    spec fn divs_req(lhs: Seq<T>, rhs: T) -> bool;

    /// The value of one output element of `divs`.
    spec fn div_vals(a: T, b: T) -> T;

    fn adds(&mut self, lhs: &Matrix<T>, rhs: T) -> (out: Matrix<T>)
        requires
            lhs.wf(),
            Self::adds_req(lhs@, rhs),
        ensures
            out.wf(),
            out.rows == lhs.rows,
            out.cols == lhs.cols,
            out@.len() == lhs@.len(),
            forall|i: int| 0 <= i < lhs@.len() ==> #[trigger] out@[i] == Self::add_vals(lhs@[i], rhs),
    ;

    fn muls(&mut self, lhs: &Matrix<T>, rhs: T) -> (out: Matrix<T>)
        requires
            lhs.wf(),
            Self::muls_req(lhs@, rhs),
        ensures
            out.wf(),
            out.rows == lhs.rows,
            out.cols == lhs.cols,
            out@.len() == lhs@.len(),
            forall|i: int| 0 <= i < lhs@.len() ==> #[trigger] out@[i] == Self::mul_vals(lhs@[i], rhs),
    ;

    fn divs(&mut self, lhs: &Matrix<T>, rhs: T) -> (out: Matrix<T>)
        requires
            lhs.wf(),
            Self::divs_req(lhs@, rhs),
        ensures
            out.wf(),
            out.rows == lhs.rows,
            out.cols == lhs.cols,
            out@.len() == lhs@.len(),
            forall|i: int| 0 <= i < lhs@.len() ==> #[trigger] out@[i] == Self::div_vals(lhs@[i], rhs),
    ;
}

impl AdditionalOps<i32> for Host<i32> {
    /// Every elementwise sum stays within the element type.
    open spec fn adds_req(lhs: Seq<i32>, rhs: i32) -> bool {
        forall|i: int| 0 <= i < lhs.len() ==> in_i32(#[trigger] lhs[i] + rhs)
    }

    open spec fn add_vals(a: i32, b: i32) -> i32 {
        (a + b) as i32
    }

    /// Every elementwise product stays within the element type.
    open spec fn muls_req(lhs: Seq<i32>, rhs: i32) -> bool {
        forall|i: int| 0 <= i < lhs.len() ==> in_i32(#[trigger] lhs[i] * rhs)
    }

    open spec fn mul_vals(a: i32, b: i32) -> i32 {
        (a * b) as i32
    }

    /// The divisor is nonzero and no quotient overflows (the one overflowing
    /// case of this element type: the smallest value divided by minus one).
    open spec fn divs_req(lhs: Seq<i32>, rhs: i32) -> bool {
        rhs != 0 && forall|i: int| 0 <= i < lhs.len() ==> !(#[trigger] lhs[i] == i32::MIN && rhs
            == -1)
    }

    open spec fn div_vals(a: i32, b: i32) -> i32 {
        div_trunc(a as int, b as int) as i32
    }

    fn adds(&mut self, lhs: &Matrix<i32>, rhs: i32) -> (out: Matrix<i32>) {
        let f = |a: i32, b: i32| -> (r: i32)
            requires
                in_i32(a + b),
            ensures
                r == a + b,
            { a + b };
        let out = scalar_apply(self, lhs, rhs, &f);
        out
    }

    fn muls(&mut self, lhs: &Matrix<i32>, rhs: i32) -> (out: Matrix<i32>) {
        let f = |a: i32, b: i32| -> (r: i32)
            requires
                in_i32(a * b),
            ensures
                r == a * b,
            { a * b };
        let out = scalar_apply(self, lhs, rhs, &f);
        out
    }

    fn divs(&mut self, lhs: &Matrix<i32>, rhs: i32) -> (out: Matrix<i32>) {
        let f = |a: i32, b: i32| -> (r: i32)
            requires
                b != 0,
                !(a == i32::MIN && b == -1),
            ensures
                r == div_trunc(a as int, b as int),
            { div_i32(a, b) };
        let out = scalar_apply(self, lhs, rhs, &f);
        out
    }
}

/// Truncating division of two machine integers, excluding the divisor zero
/// and the one overflowing quotient.
pub fn div_i32(a: i32, b: i32) -> (r: i32)
    requires
        b != 0,
        !(a == i32::MIN && b == -1),
    ensures
        r == div_trunc(a as int, b as int),
{
    let wa: i64 = a as i64;
    let wb: i64 = b as i64;
    let ma: u64 = if wa < 0 {
        (-wa) as u64
    } else {
        wa as u64
    };
    let mb: u64 = if wb < 0 {
        (-wb) as u64
    } else {
        wb as u64
    };
    let q: u64 = ma / mb;
    proof {
        lemma_div_pos_is_pos(ma as int, mb as int);
        lemma_div_nonincreasing(ma as int, mb as int);
        if a == i32::MIN && b < 0 {
            // Same signs give a nonnegative quotient; the divisor magnitude
            // is at least two here, so the quotient magnitude stays strictly
            // below the element type's bound.
            assert(mb >= 2);
            assert(ma as int / mb as int <= ma as int / 2) by (nonlinear_arith)
                requires
                    mb >= 2,
                    ma >= 0,
            ;
            assert(ma as int / 2 < 0x8000_0000);
        }
    }
    let qi: i64 = q as i64;
    let r: i64 = if (a < 0) != (b < 0) {
        -qi
    } else {
        qi
    };
    r as i32
}

impl<T: Copy> Matrix<T> {
    /// Adds the scalar to every element, on the owning device.
    pub fn adds<D: AdditionalOps<T>>(&self, device: &mut D, rhs: T) -> (out: Matrix<T>)
        requires
            self.wf(),
            D::adds_req(self@, rhs),
        ensures
            out.wf(),
            out.rows == self.rows,
            out.cols == self.cols,
            out@.len() == self@.len(),
            forall|i: int| 0 <= i < self@.len() ==> #[trigger] out@[i] == D::add_vals(self@[i], rhs),
    {
        device.adds(self, rhs)
    }

    /// Multiplies every element by the scalar, on the owning device.
    pub fn muls<D: AdditionalOps<T>>(&self, device: &mut D, rhs: T) -> (out: Matrix<T>)
        requires
            self.wf(),
            D::muls_req(self@, rhs),
        ensures
            out.wf(),
            out.rows == self.rows,
            out.cols == self.cols,
            out@.len() == self@.len(),
            forall|i: int| 0 <= i < self@.len() ==> #[trigger] out@[i] == D::mul_vals(self@[i], rhs),
    {
        device.muls(self, rhs)
    }

    /// Divides every element by the scalar, on the owning device.
    pub fn divs<D: AdditionalOps<T>>(&self, device: &mut D, rhs: T) -> (out: Matrix<T>)
        requires
            self.wf(),
            D::divs_req(self@, rhs),
        ensures
            out.wf(),
            out.rows == self.rows,
            out.cols == self.cols,
            out@.len() == self@.len(),
            forall|i: int| 0 <= i < self@.len() ==> #[trigger] out@[i] == D::div_vals(self@[i], rhs),
    {
        device.divs(self, rhs)
    }
}


/// Buffer-cache reuse never leaks stale data: the contract of a scalar
/// broadcast pins every output element to a function of the operation's
/// inputs alone, so two runs producing same-size outputs agree elementwise
/// whatever buffers the cache supplied to each — no cell of an output ever
/// shows what a reused buffer held before.
pub proof fn lemma_scalar_result_cache_oblivious<T: Copy, D: AdditionalOps<T>>(
    lhs: Seq<T>,
    rhs: T,
    out1: Seq<T>,
    out2: Seq<T>,
)
    requires
        out1.len() == lhs.len(),
        out2.len() == lhs.len(),
        forall|i: int| 0 <= i < lhs.len() ==> #[trigger] out1[i] == D::add_vals(lhs[i], rhs),
        forall|i: int| 0 <= i < lhs.len() ==> #[trigger] out2[i] == D::add_vals(lhs[i], rhs),
    ensures
        out1 == out2,
{
    assert(out1 =~= out2);
}


/// The backend-agnostic identity of the scalar broadcasts: two backends
/// whose stated per-element values agree return equal output buffers for
/// equal inputs. Instantiating the value functions with the two devices'
/// `add_vals`, `mul_vals` or `div_vals` gives the identity for each of the
/// scalar operations.
pub proof fn lemma_scalar_broadcast_backend_agnostic<T>(
    lhs: Seq<T>,
    out1: Seq<T>,
    out2: Seq<T>,
    vals1: spec_fn(T) -> T,
    vals2: spec_fn(T) -> T,
)
    requires
        out1.len() == lhs.len(),
        out2.len() == lhs.len(),
        forall|i: int| 0 <= i < lhs.len() ==> #[trigger] out1[i] == vals1(lhs[i]),
        forall|i: int| 0 <= i < lhs.len() ==> #[trigger] out2[i] == vals2(lhs[i]),
        forall|a: T| #[trigger] vals1(a) == vals2(a),
    ensures
        out1 == out2,
{
    assert(out1 =~= out2);
}

} // verus!
