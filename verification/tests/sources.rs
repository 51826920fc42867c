use custos_math::opencl::cl_scalar_op_source;
use custos_math::opencl::cl_str_op_source;
use custos_math::opencl::cl_transpose_source;
use custos_math::opencl::usize_to_decimal;

#[test]
fn test_usize_to_decimal() {
    assert_eq!(usize_to_decimal(0), "0");
    assert_eq!(usize_to_decimal(7), "7");
    assert_eq!(usize_to_decimal(10), "10");
    assert_eq!(usize_to_decimal(12345), "12345");
    assert_eq!(usize_to_decimal(1000000), "1000000");
}

#[test]
fn test_cl_scalar_op_source_text() {
    let src = cl_scalar_op_source("float", "+");
    let expected = "\n    __kernel void scalar_r_op(__global const float* x, const float scalar, __global float* out) {\n        size_t id = get_global_id(0);\n        \n        out[id] = x[id]+scalar;\n    }\n    ";
    assert_eq!(src, expected);
}

#[test]
fn test_cl_scalar_op_source_is_pure_in_its_inputs() {
    // identical (datatype, op) requests produce identical source text — the
    // invariant a compiled-kernel cache keyed by source text relies on
    let a = cl_scalar_op_source("double", "*");
    let b = cl_scalar_op_source("double", "*");
    assert_eq!(a, b);
    let c = cl_scalar_op_source("double", "/");
    assert_ne!(a, c);
}

#[test]
fn test_cl_str_op_source_text() {
    let src = cl_str_op_source("float", "x*x");
    let expected = "\n        __kernel void str_op(__global const float* lhs, __global float* out) {\n            size_t id = get_global_id(0);\n            float x = lhs[id];\n            out[id] = x*x;\n        }\n    ";
    assert_eq!(src, expected);
}

#[test]
fn test_cl_transpose_source_text() {
    let src = cl_transpose_source(2, 3, "float");
    assert!(src.contains("#define I0 2\n"));
    assert!(src.contains("#define I1 3\n"));
    assert!(src.contains("#define O0 3\n"));
    assert!(src.contains("#define O1 2\n"));
    assert!(src.contains("__kernel void transpose(__global const float* I, __global float* O)"));
    assert!(src.contains("O[O_idx(i1,i0)] = I[gid];"));
}
