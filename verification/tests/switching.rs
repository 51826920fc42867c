use custos::CPU as CustosCpu;
use custos_math::cpu::Host;
use custos_math::switching::read_device_buffer;
use custos_math::switching::switch_to_host_diagflat;
use custos_math::switching::switch_to_host_transpose;
use custos_math::switching::write_device_buffer;

#[test]
fn test_device_buffer_round_trip() {
    let dev = CustosCpu::new();
    let b = write_device_buffer(&dev, vec![3, 1, 4, 1, 5]);
    assert_eq!(read_device_buffer(&b), vec![3, 1, 4, 1, 5]);
}

#[test]
fn test_switch_to_host_transpose() {
    let dev = CustosCpu::new();
    let mut host: Host<i32> = Host::new();
    let x = write_device_buffer(&dev, vec![1, 2, 3, 4, 5, 6]);

    let t = switch_to_host_transpose(&dev, &mut host, &x, 2, 3).unwrap();
    assert_eq!(read_device_buffer(&t), vec![1, 4, 2, 5, 3, 6]);

    // a shape that does not match the buffer gives no result at all
    assert!(switch_to_host_transpose(&dev, &mut host, &x, 2, 2).is_none());
}

#[test]
fn test_switch_to_host_diagflat() {
    let dev = CustosCpu::new();
    let mut host: Host<i32> = Host::new();
    let v = write_device_buffer(&dev, vec![7, 8]);

    let d = switch_to_host_diagflat(&dev, &mut host, &v, 1, 2).unwrap();
    assert_eq!(read_device_buffer(&d), vec![7, 0, 0, 8]);

    let c = switch_to_host_diagflat(&dev, &mut host, &v, 2, 1).unwrap();
    assert_eq!(read_device_buffer(&c), vec![7, 0, 0, 8]);

    // not a row or column vector: no result
    let sq = write_device_buffer(&dev, vec![1, 2, 3, 4]);
    assert!(switch_to_host_diagflat(&dev, &mut host, &sq, 2, 2).is_none());
}

#[test]
fn test_switch_to_host_sum() {
    let dev = CustosCpu::new();
    let x = write_device_buffer(&dev, vec![1, 2, 3, 4, 5, 6]);
    assert_eq!(custos_math::switching::switch_to_host_sum(&x), Some(21));

    // an exact sum outside the element type gives no result
    let big = write_device_buffer(&dev, vec![i32::MAX, 1]);
    assert_eq!(custos_math::switching::switch_to_host_sum(&big), None);

    let negs = write_device_buffer(&dev, vec![i32::MIN, i32::MIN]);
    assert_eq!(custos_math::switching::switch_to_host_sum(&negs), None);
}

#[test]
fn test_slice_sum_wide_exceeds_element_type() {
    let v = vec![i32::MAX, i32::MAX, 2];
    let w = custos_math::ops::sum::slice_sum_wide(v.as_slice());
    assert_eq!(w, 2 * (i32::MAX as i64) + 2);
}

#[test]
fn test_switch_to_host_sum_rows() {
    let dev = CustosCpu::new();
    let x = write_device_buffer(&dev, vec![1, 2, 3, 4, 5, 6]);
    let r = custos_math::switching::switch_to_host_sum_rows(&dev, &x, 2, 3).unwrap();
    assert_eq!(read_device_buffer(&r), vec![5, 7, 9]);

    // a shape that does not match the buffer gives no result
    assert!(custos_math::switching::switch_to_host_sum_rows(&dev, &x, 3, 3).is_none());

    // a column sum that leaves the element type gives no result
    let big = write_device_buffer(&dev, vec![i32::MAX, 1, i32::MAX, 1]);
    assert!(custos_math::switching::switch_to_host_sum_rows(&dev, &big, 2, 2).is_none());
}

#[test]
fn test_switch_to_host_sum_cols() {
    let dev = CustosCpu::new();
    let x = write_device_buffer(&dev, vec![1, 2, 3, 4, 5, 6]);
    let c = custos_math::switching::switch_to_host_sum_cols(&dev, &x, 2, 3).unwrap();
    assert_eq!(read_device_buffer(&c), vec![6, 15]);

    // a row sum that leaves the element type gives no result
    let big = write_device_buffer(&dev, vec![i32::MAX, i32::MAX, 0, 0]);
    assert!(custos_math::switching::switch_to_host_sum_cols(&dev, &big, 2, 2).is_none());
}

#[test]
fn test_switch_to_host_mean() {
    let dev = CustosCpu::new();
    let x = write_device_buffer(&dev, vec![1, 2, 3, 4, 5, 6]);
    assert_eq!(custos_math::switching::switch_to_host_mean(&x), Some(3));

    let negs = write_device_buffer(&dev, vec![-3, -4]);
    assert_eq!(custos_math::switching::switch_to_host_mean(&negs), Some(-3));

    // the mean is total even where the sum leaves the element type
    let big = write_device_buffer(&dev, vec![i32::MAX, i32::MAX]);
    assert_eq!(custos_math::switching::switch_to_host_sum(&big), None);
    assert_eq!(custos_math::switching::switch_to_host_mean(&big), Some(i32::MAX));
}
