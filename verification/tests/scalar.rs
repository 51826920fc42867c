use custos_math::cpu::scalar_apply;
use custos_math::cpu::Host;

#[test]
fn test_scalar() {
    let mut device: Host<f64> = Host::new();
    let x = device.matrix(1, 5, vec![-1.31, 2.12, 1., 5., 4.]);

    let res = scalar_apply(&mut device, &x, 2.0, &|a: f64, b: f64| a + b);
    assert_eq!(res.read(), vec![0.69, 4.12, 3., 7., 6.]);
}

#[test]
fn test_scalar_apply() {
    let mut device: Host<f64> = Host::new();
    let x = device.matrix(1, 5, vec![-1.31, 2.12, 1., 5., 4.]);

    let res = scalar_apply(&mut device, &x, 0., &|a: f64, _b: f64| a.abs() + 1.);
    assert_eq!(res.read(), vec![2.31, 3.12, 2., 6., 5.]);
}

#[test]
fn test_scalar_adds_one_by_four() {
    let mut device: Host<f64> = Host::new();
    let x = device.matrix(1, 4, vec![1.5, 2.0, 6.0, -3.0]);

    let res = scalar_apply(&mut device, &x, 2.0, &|a: f64, b: f64| a + b);
    assert_eq!(res.rows(), 1);
    assert_eq!(res.cols(), 4);
    assert_eq!(res.read(), vec![3.5, 4.0, 8.0, -1.0]);
}

#[test]
fn test_each_op_neg() {
    let mut device: Host<f64> = Host::new();
    let x = device.matrix(1, 4, vec![1.5, 2.0, 6.0, -3.0]);

    let res = custos_math::cpu::each_op(&mut device, &x, &|v: f64| -v);
    assert_eq!(res.read(), vec![-1.5, -2.0, -6.0, 3.0]);
}

#[test]
fn test_adds_muls_divs_integers() {
    let mut device: Host<i32> = Host::new();
    let x = device.matrix(2, 2, vec![6, -7, 8, 9]);

    let a = x.adds(&mut device, 2);
    assert_eq!(a.read(), vec![8, -5, 10, 11]);

    let m = x.muls(&mut device, -3);
    assert_eq!(m.read(), vec![-18, 21, -24, -27]);

    let d = x.divs(&mut device, 2);
    assert_eq!(d.read(), vec![3, -3, 4, 4]);
}

#[test]
fn test_div_i32_truncates_toward_zero() {
    assert_eq!(custos_math::ops::scalar::div_i32(7, 2), 3);
    assert_eq!(custos_math::ops::scalar::div_i32(-7, 2), -3);
    assert_eq!(custos_math::ops::scalar::div_i32(7, -2), -3);
    assert_eq!(custos_math::ops::scalar::div_i32(-7, -2), 3);
    assert_eq!(custos_math::ops::scalar::div_i32(i32::MIN, 1), i32::MIN);
    assert_eq!(custos_math::ops::scalar::div_i32(i32::MIN, 2), -1073741824);
    assert_eq!(custos_math::ops::scalar::div_i32(i32::MAX, -1), -i32::MAX);
}
