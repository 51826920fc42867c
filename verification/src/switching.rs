//! The cross-device fallback bridge: an operation on a buffer resident on a
//! `custos` device with no native kernel for it copies the buffer into a
//! transient host matrix, computes on the host engine, and copies the result
//! back into a freshly allocated device buffer. The transfer is explicit,
//! named data movement in the flow — never an implicit coercion — and no
//! partial result is ever returned.
use vstd::prelude::*;

use crate::cpu::Host;
use crate::in_i32;
use crate::ops::diagflat::DiagflatOp;
use crate::div_trunc;
use crate::ops::sum::col_sum;
use crate::ops::sum::div_wide_by_count;
use crate::ops::sum::lemma_sum_seq_element_bound;
use crate::ops::sum::lemma_view_int_bounds;
use crate::ops::sum::row_sum;
use crate::ops::sum::slice_sum_wide;
use crate::ops::sum::sum_cols_checked;
use crate::ops::sum::sum_rows_checked;
use crate::ops::sum::sum_seq;
use crate::ops::sum::view_int;
use crate::ops::transpose::transpose_spec;
use crate::ops::transpose::TransposeOp;

verus! {

#[verifier::external_type_specification]
#[verifier::external_body]
pub struct ExCustosHost(custos::CPU);

/// A device-resident buffer of machine integers. The buffer type's own
/// generics are bounded by the device layer's traits, which have no
/// specifications here, so the value is held behind an opaque wrapper and
/// reached only through the two transfer functions below.
#[verifier::external_body]
pub struct DeviceBuffer<'a> {
    inner: custos::Buffer<'a, i32>,
}

/// What a device buffer holds, element by element.
pub uninterp spec fn buffer_elems(b: DeviceBuffer) -> Seq<i32>;

/// Relies on custos's `Buffer::from((&device, vec))`: allocates a buffer on
/// the device and copies the vector's elements into it. The device layer
/// rejects a zero-length allocation outright, so the vector must be
/// non-empty.
#[verifier::external_body]
pub fn write_device_buffer<'a>(device: &'a custos::CPU, data: Vec<i32>) -> (b: DeviceBuffer<'a>)
    requires
        data@.len() > 0,
    ensures
        buffer_elems(b) == data@,
{
    DeviceBuffer { inner: custos::Buffer::from((device, data)) }
}

/// Relies on custos's `Buffer::read_to_vec`: copies the buffer's contents
/// into a host vector, blocking until the transfer completes.
#[verifier::external_body]
pub fn read_device_buffer(b: &DeviceBuffer) -> (r: Vec<i32>)
    ensures
        r@ == buffer_elems(*b),
{
    b.inner.read_to_vec()
}

/// Transposes a `rows x cols` matrix resident in a device buffer through the
/// host: copy the buffer into a transient host matrix, transpose there, and
/// copy the result back into a fresh buffer of `device`. Returns nothing
/// when the buffer does not hold exactly `rows*cols` elements, or holds no
/// elements at all (the device layer has no zero-length buffers).
pub fn switch_to_host_transpose<'a>(
    device: &'a custos::CPU,
    host: &mut Host<i32>,
    x: &DeviceBuffer,
    rows: usize,
    cols: usize,
) -> (out: Option<DeviceBuffer<'a>>)
    ensures
        match out {
            Option::Some(b) => {
                &&& buffer_elems(*x).len() == rows * cols
                &&& buffer_elems(*x).len() > 0
                &&& buffer_elems(b) == transpose_spec(buffer_elems(*x), rows as int, cols as int)
            },
            Option::None => !(buffer_elems(*x).len() == rows * cols && buffer_elems(*x).len()
                > 0),
        },
{
    let data = read_device_buffer(x);
    let n = data.len();
    if n == 0 {
        return Option::None;
    }
    match rows.checked_mul(cols) {
        Option::Some(area) => {
            if n != area {
                return Option::None;
            }
            let m = host.matrix(rows, cols, data);
            let t = host.transpose(&m);
            Option::Some(write_device_buffer(device, t.data))
        },
        Option::None => Option::None,
    }
}

/// Builds the diagonal matrix of a device-resident row or column vector
/// through the host: copy in, construct the zero-filled `N x N` diagonal
/// matrix there, copy back. Returns nothing when the given shape is not a
/// single row or column of the buffer's length, when the buffer is empty
/// (the device layer has no zero-length buffers), or when `N*N` exceeds
/// the address space.
pub fn switch_to_host_diagflat<'a>(
    device: &'a custos::CPU,
    host: &mut Host<i32>,
    x: &DeviceBuffer,
    rows: usize,
    cols: usize,
) -> (out: Option<DeviceBuffer<'a>>)
    ensures
        match out {
            Option::Some(b) => {
                &&& buffer_elems(*x).len() == rows * cols
                &&& buffer_elems(*x).len() > 0
                &&& (rows == 1 || cols == 1)
                &&& buffer_elems(b).len() == buffer_elems(*x).len() * buffer_elems(*x).len()
                &&& forall|k: int|
                    0 <= k < buffer_elems(*x).len() ==> #[trigger] buffer_elems(b)[k * buffer_elems(
                        *x,
                    ).len() + k] == buffer_elems(*x)[k]
                &&& forall|i: int, j: int|
                    0 <= i < buffer_elems(*x).len() && 0 <= j < buffer_elems(*x).len() && i != j
                        ==> #[trigger] buffer_elems(b)[i * buffer_elems(*x).len() + j] == 0i32
            },
            Option::None => !(buffer_elems(*x).len() == rows * cols && buffer_elems(*x).len() > 0
                && (rows == 1 || cols == 1) && buffer_elems(*x).len() * buffer_elems(*x).len()
                <= usize::MAX),
        },
{
    let data = read_device_buffer(x);
    if !(rows == 1 || cols == 1) {
        return Option::None;
    }
    let len = data.len();
    if len == 0 {
        return Option::None;
    }
    match rows.checked_mul(cols) {
        Option::Some(area) => {
            if len != area {
                return Option::None;
            }
            match len.checked_mul(len) {
                Option::Some(_) => {
                    let ghost v = buffer_elems(*x);
                    let m = host.matrix(rows, cols, data);
                    let d = host.diagflat(&m);
                    proof {
                        assert(d@.len() >= 1) by (nonlinear_arith)
                            requires
                                d@.len() == m@.len() * m@.len(),
                                m@.len() >= 1,
                        ;
                    }
                    let b = write_device_buffer(device, d.data);
                    proof {
                        assert(m@ == v);
                        assert forall|k: int|
                            0 <= k < v.len() implies #[trigger] buffer_elems(b)[k * v.len() + k]
                            == v[k] by {
                            assert(d@[k * m@.len() + k] == m@[k]);
                        }
                        assert forall|i: int, j: int|
                            0 <= i < v.len() && 0 <= j < v.len() && i != j
                                implies #[trigger] buffer_elems(b)[i * v.len() + j] == 0i32 by {
                            assert(d@[i * m@.len() + j] == 0i32);
                        }
                    }
                    Option::Some(b)
                },
                Option::None => Option::None,
            }
        },
        Option::None => Option::None,
    }
}

/// Reduces a device-resident buffer to its scalar sum through the host: copy
/// in, accumulate left to right there. Returns nothing when the buffer is
/// too long for the wide accumulator or its exact sum leaves the element
/// type; there is no partial or wrapped result.
pub fn switch_to_host_sum(x: &DeviceBuffer) -> (out: Option<i32>)
    ensures
        match out {
            Option::Some(v) => {
                &&& buffer_elems(*x).len() < 0x1_0000_0000
                &&& in_i32(sum_seq(view_int(buffer_elems(*x))))
                &&& v as int == sum_seq(view_int(buffer_elems(*x)))
            },
            Option::None => !(buffer_elems(*x).len() < 0x1_0000_0000 && in_i32(
                sum_seq(view_int(buffer_elems(*x))),
            )),
        },
{
    let data = read_device_buffer(x);
    if (data.len() as u64) >= 0x1_0000_0000u64 {
        return Option::None;
    }
    let w = slice_sum_wide(data.as_slice());
    if i32::MIN as i64 <= w && w <= i32::MAX as i64 {
        Option::Some(w as i32)
    } else {
        Option::None
    }
}


/// Reduces a device-resident `rows x cols` buffer to its row of column sums
/// through the host, with a wide accumulator per column. Returns nothing
/// when the shape does not match the buffer, the row count exceeds the
/// accumulator's reach, the output would be empty, or some column sum
/// leaves the element type; never a wrapped or partial result.
pub fn switch_to_host_sum_rows<'a>(
    device: &'a custos::CPU,
    x: &DeviceBuffer,
    rows: usize,
    cols: usize,
) -> (out: Option<DeviceBuffer<'a>>)
    ensures
        match out {
            Option::Some(b) => {
                &&& buffer_elems(*x).len() == rows * cols
                &&& rows < 0x1_0000_0000
                &&& cols > 0
                &&& buffer_elems(b).len() == cols
                &&& forall|j: int|
                    0 <= j < cols ==> in_i32(
                        #[trigger] col_sum(
                            view_int(buffer_elems(*x)),
                            cols as int,
                            j,
                            rows as int,
                        ),
                    )
                &&& forall|j: int|
                    0 <= j < cols ==> #[trigger] buffer_elems(b)[j] as int == col_sum(
                        view_int(buffer_elems(*x)),
                        cols as int,
                        j,
                        rows as int,
                    )
            },
            Option::None => !(buffer_elems(*x).len() == rows * cols && rows < 0x1_0000_0000
                && cols > 0 && forall|j: int|
                0 <= j < cols ==> in_i32(
                    #[trigger] col_sum(view_int(buffer_elems(*x)), cols as int, j, rows as int),
                )),
        },
{
    let data = read_device_buffer(x);
    if cols == 0 {
        return Option::None;
    }
    if (rows as u64) >= 0x1_0000_0000u64 {
        return Option::None;
    }
    let n = data.len();
    match rows.checked_mul(cols) {
        Option::Some(area) => {
            if n != area {
                return Option::None;
            }
            match sum_rows_checked(data.as_slice(), rows, cols) {
                Option::Some(v) => Option::Some(write_device_buffer(device, v)),
                Option::None => Option::None,
            }
        },
        Option::None => Option::None,
    }
}

/// Reduces a device-resident `rows x cols` buffer to its column of row sums
/// through the host, with a wide accumulator per row. Returns nothing when
/// the shape does not match the buffer, the column count exceeds the
/// accumulator's reach, the output would be empty, or some row sum leaves
/// the element type; never a wrapped or partial result.
pub fn switch_to_host_sum_cols<'a>(
    device: &'a custos::CPU,
    x: &DeviceBuffer,
    rows: usize,
    cols: usize,
) -> (out: Option<DeviceBuffer<'a>>)
    ensures
        match out {
            Option::Some(b) => {
                &&& buffer_elems(*x).len() == rows * cols
                &&& cols < 0x1_0000_0000
                &&& rows > 0
                &&& buffer_elems(b).len() == rows
                &&& forall|i: int|
                    0 <= i < rows ==> in_i32(
                        #[trigger] row_sum(
                            view_int(buffer_elems(*x)),
                            cols as int,
                            i,
                            cols as int,
                        ),
                    )
                &&& forall|i: int|
                    0 <= i < rows ==> #[trigger] buffer_elems(b)[i] as int == row_sum(
                        view_int(buffer_elems(*x)),
                        cols as int,
                        i,
                        cols as int,
                    )
            },
            Option::None => !(buffer_elems(*x).len() == rows * cols && cols < 0x1_0000_0000
                && rows > 0 && forall|i: int|
                0 <= i < rows ==> in_i32(
                    #[trigger] row_sum(view_int(buffer_elems(*x)), cols as int, i, cols as int),
                )),
        },
{
    let data = read_device_buffer(x);
    if rows == 0 {
        return Option::None;
    }
    if (cols as u64) >= 0x1_0000_0000u64 {
        return Option::None;
    }
    let n = data.len();
    match rows.checked_mul(cols) {
        Option::Some(area) => {
            if n != area {
                return Option::None;
            }
            match sum_cols_checked(data.as_slice(), rows, cols) {
                Option::Some(v) => Option::Some(write_device_buffer(device, v)),
                Option::None => Option::None,
            }
        },
        Option::None => Option::None,
    }
}

/// Reduces a device-resident buffer to the truncated mean of its elements
/// through the host: the wide sum divided by the element count. Returns
/// nothing for an empty buffer or one too long for the wide accumulator;
/// the mean of any other buffer always fits the element type.
pub fn switch_to_host_mean(x: &DeviceBuffer) -> (out: Option<i32>)
    ensures
        match out {
            Option::Some(v) => {
                &&& 0 < buffer_elems(*x).len() < 0x1_0000_0000
                &&& v as int == div_trunc(
                    sum_seq(view_int(buffer_elems(*x))),
                    buffer_elems(*x).len() as int,
                )
            },
            Option::None => !(0 < buffer_elems(*x).len() < 0x1_0000_0000),
        },
{
    let data = read_device_buffer(x);
    let n = data.len();
    if n == 0 {
        return Option::None;
    }
    if (n as u64) >= 0x1_0000_0000u64 {
        return Option::None;
    }
    let w = slice_sum_wide(data.as_slice());
    proof {
        lemma_view_int_bounds(data@);
        lemma_sum_seq_element_bound(view_int(data@));
    }
    Option::Some(div_wide_by_count(w, n))
}

} // verus!
