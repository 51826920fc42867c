use custos_math::cpu::col_op;
use custos_math::cpu::row_op;
use custos_math::cpu::row_op_slice_lhs;
use custos_math::cpu::Host;
use custos_math::ops::transpose::slice_transpose;
use custos_math::OpError;

#[test]
fn test_row_op_broadcasts_row() {
    let mut device: Host<i32> = Host::new();
    let lhs = device.matrix(2, 3, vec![1, 2, 3, 4, 5, 6]);
    let rhs = device.matrix(1, 3, vec![10, 20, 30]);

    let out = row_op(&mut device, &lhs, &rhs, &|a: i32, b: i32| a + b).unwrap();
    assert_eq!(out.rows(), 2);
    assert_eq!(out.cols(), 3);
    assert_eq!(out.read(), vec![11, 22, 33, 14, 25, 36]);
}

#[test]
fn test_row_op_shape_mismatch_wrong_cols() {
    let mut device: Host<i32> = Host::new();
    let lhs = device.matrix(2, 3, vec![1, 2, 3, 4, 5, 6]);
    let rhs = device.matrix(1, 2, vec![10, 20]);

    let out = row_op(&mut device, &lhs, &rhs, &|a: i32, b: i32| a + b);
    assert!(matches!(out, Err(OpError::ShapeMismatch)));
}

#[test]
fn test_row_op_shape_mismatch_not_one_row() {
    let mut device: Host<i32> = Host::new();
    let lhs = device.matrix(2, 3, vec![1, 2, 3, 4, 5, 6]);
    let rhs = device.matrix(2, 3, vec![1, 1, 1, 1, 1, 1]);

    let out = row_op(&mut device, &lhs, &rhs, &|a: i32, b: i32| a + b);
    assert!(matches!(out, Err(OpError::ShapeMismatch)));
}

#[test]
fn test_col_op_broadcasts_column() {
    let mut device: Host<i32> = Host::new();
    let lhs = device.matrix(2, 3, vec![1, 2, 3, 4, 5, 6]);
    let rhs = device.matrix(2, 1, vec![10, 20]);

    let out = col_op(&mut device, &lhs, &rhs, &|a: i32, b: i32| a + b).unwrap();
    assert_eq!(out.read(), vec![11, 12, 13, 24, 25, 26]);
}

#[test]
fn test_col_op_shape_mismatch() {
    let mut device: Host<i32> = Host::new();
    let lhs = device.matrix(2, 3, vec![1, 2, 3, 4, 5, 6]);
    let rhs = device.matrix(3, 1, vec![10, 20, 30]);

    let out = col_op(&mut device, &lhs, &rhs, &|a: i32, b: i32| a + b);
    assert!(matches!(out, Err(OpError::ShapeMismatch)));
}

#[test]
fn test_row_op_slice_lhs_in_place() {
    let mut lhs = vec![1, 2, 3, 4, 5, 6];
    let rhs = vec![10, 20, 30];
    row_op_slice_lhs(lhs.as_mut_slice(), 2, 3, rhs.as_slice(), &|a: i32, b: i32| a + b);
    assert_eq!(lhs, vec![11, 22, 33, 14, 25, 36]);
}

#[test]
fn test_transpose_two_by_three() {
    let mut device: Host<i32> = Host::new();
    let x = device.matrix(2, 3, vec![1, 2, 3, 4, 5, 6]);

    let t = x.T(&mut device);
    assert_eq!(t.rows(), 3);
    assert_eq!(t.cols(), 2);
    assert_eq!(t.read(), vec![1, 4, 2, 5, 3, 6]);
}

#[test]
fn test_transpose_round_trip() {
    let mut device: Host<i32> = Host::new();
    let x = device.matrix(3, 4, vec![1, 2, 3, 4, 5, 6, 7, 8, 9, 10, 11, 12]);

    let t = x.T(&mut device);
    let back = t.T(&mut device);
    assert_eq!(back.rows(), 3);
    assert_eq!(back.cols(), 4);
    assert_eq!(back.read(), x.read());
}

#[test]
fn test_transpose_round_trip_degenerate_shapes() {
    let mut device: Host<f64> = Host::new();
    let row = device.matrix(1, 4, vec![1.5, -2.0, 0.25, 9.0]);
    let t = row.T(&mut device);
    assert_eq!(t.rows(), 4);
    assert_eq!(t.cols(), 1);
    assert_eq!(t.read(), vec![1.5, -2.0, 0.25, 9.0]);
    let back = t.T(&mut device);
    assert_eq!(back.rows(), 1);
    assert_eq!(back.cols(), 4);
    assert_eq!(back.read(), row.read());

    let empty = device.matrix(0, 0, Vec::new());
    let te = empty.T(&mut device);
    assert_eq!(te.rows(), 0);
    assert_eq!(te.cols(), 0);
    assert_eq!(te.read(), Vec::<f64>::new());
}

#[test]
fn test_slice_transpose_matches_index_remap() {
    let a = vec![1, 2, 3, 4, 5, 6];
    let mut b = vec![0; 6];
    slice_transpose(2, 3, a.as_slice(), b.as_mut_slice());
    assert_eq!(b, vec![1, 4, 2, 5, 3, 6]);
}

#[test]
fn test_sum_mean() {
    let mut device: Host<i32> = Host::new();
    let x = device.matrix(2, 2, vec![1, 2, 3, 4]);
    assert_eq!(x.sum(&device), 10);
    assert_eq!(x.mean(&device), 2);

    let y = device.matrix(1, 2, vec![-3, -4]);
    assert_eq!(y.sum(&device), -7);
    assert_eq!(y.mean(&device), -3);

    let empty = device.matrix(0, 0, Vec::new());
    assert_eq!(empty.sum(&device), 0);
}

#[test]
fn test_sum_rows_sum_cols_two_by_three() {
    let mut device: Host<i32> = Host::new();
    let x = device.matrix(2, 3, vec![1, 2, 3, 4, 5, 6]);

    let rows_out = x.sum_rows(&mut device);
    assert_eq!(rows_out.rows(), 1);
    assert_eq!(rows_out.cols(), 3);
    assert_eq!(rows_out.read(), vec![5, 7, 9]);

    let cols_out = x.sum_cols(&mut device);
    assert_eq!(cols_out.rows(), 2);
    assert_eq!(cols_out.cols(), 1);
    assert_eq!(cols_out.read(), vec![6, 15]);
}

#[test]
fn test_sum_decomposes_over_axes() {
    let mut device: Host<i32> = Host::new();
    let x = device.matrix(3, 4, vec![3, -1, 4, 1, -5, 9, 2, -6, 5, 3, -5, 8]);

    let total = x.sum(&device);
    let rows_out = x.sum_rows(&mut device);
    let cols_out = x.sum_cols(&mut device);
    assert_eq!(rows_out.sum(&device), total);
    assert_eq!(cols_out.sum(&device), total);
}

#[test]
fn test_diagflat_trace_and_zeros() {
    let mut device: Host<i32> = Host::new();
    let v = device.matrix(1, 3, vec![1, 2, 3]);

    let d = v.diagflat(&mut device);
    assert_eq!(d.rows(), 3);
    assert_eq!(d.cols(), 3);
    assert_eq!(d.read(), vec![1, 0, 0, 0, 2, 0, 0, 0, 3]);

    // trace equals the vector's sum; every off-diagonal cell is exactly zero
    let data = d.read();
    let mut trace = 0;
    for k in 0..3 {
        trace += data[k * 3 + k];
    }
    assert_eq!(trace, v.sum(&device));
    for i in 0..3 {
        for j in 0..3 {
            if i != j {
                assert_eq!(data[i * 3 + j], 0);
            }
        }
    }

    // a column vector works the same way
    let c = device.matrix(3, 1, vec![4, 5, 6]);
    let dc = c.diagflat(&mut device);
    assert_eq!(dc.read(), vec![4, 0, 0, 0, 5, 0, 0, 0, 6]);
}

#[test]
fn test_sum_rows_checked_and_sum_cols_checked() {
    let x = vec![1, 2, 3, 4, 5, 6];
    let cols = custos_math::ops::sum::sum_rows_checked(x.as_slice(), 2, 3).unwrap();
    assert_eq!(cols, vec![5, 7, 9]);
    let rows = custos_math::ops::sum::sum_cols_checked(x.as_slice(), 2, 3).unwrap();
    assert_eq!(rows, vec![6, 15]);

    let big = vec![i32::MAX, 0, i32::MAX, 0];
    assert!(custos_math::ops::sum::sum_rows_checked(big.as_slice(), 2, 2).is_none());
    let wide = vec![i32::MAX, i32::MAX, 0, 0];
    assert!(custos_math::ops::sum::sum_cols_checked(wide.as_slice(), 2, 2).is_none());
}

#[test]
fn test_div_wide_by_count() {
    assert_eq!(custos_math::ops::sum::div_wide_by_count(7, 2), 3);
    assert_eq!(custos_math::ops::sum::div_wide_by_count(-7, 2), -3);
    assert_eq!(custos_math::ops::sum::div_wide_by_count(2 * (i32::MAX as i64), 2), i32::MAX);
    assert_eq!(custos_math::ops::sum::div_wide_by_count(2 * (i32::MIN as i64), 2), i32::MIN);
}
