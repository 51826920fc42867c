//! Kernel source generation for the accelerator backend: each generator is
//! a pure function from the element datatype's native type name and the
//! operation expression (and, for transposition, the shape) to the kernel
//! source text. Identical requests therefore produce identical text, which
//! is the invariant a compiled-kernel cache keyed by source text relies on
//! to hit instead of recompiling. Compiling and launching the text needs a
//! live accelerator driver and stays with the device layer.
use vstd::prelude::*;

use vstd::string::StringExecFns;

verus! {

/// The decimal digit character of `d`.
pub open spec fn digit_char(d: int) -> char {
    if d == 0 {
        '0'
    } else if d == 1 {
        '1'
    } else if d == 2 {
        '2'
    } else if d == 3 {
        '3'
    } else if d == 4 {
        '4'
    } else if d == 5 {
        '5'
    } else if d == 6 {
        '6'
    } else if d == 7 {
        '7'
    } else if d == 8 {
        '8'
    } else {
        '9'
    }
}

/// The decimal digits of `n`, most significant first.
pub open spec fn dec_str(n: nat) -> Seq<char>
    decreases n,
{
    if n < 10 {
        seq![digit_char(n as int)]
    } else {
        dec_str(n / 10) + seq![digit_char((n % 10) as int)]
    }
}

/// The single decimal digit `d` as text.
fn digit_str(d: usize) -> (r: &'static str)
    requires
        d < 10,
    ensures
        r@ == seq![digit_char(d as int)],
{
    if d == 0 {
        proof {
            reveal_strlit("0");
            assert("0"@ =~= seq![digit_char(0)]);
        }
        "0"
    } else if d == 1 {
        proof {
            reveal_strlit("1");
            assert("1"@ =~= seq![digit_char(1)]);
        }
        "1"
    } else if d == 2 {
        proof {
            reveal_strlit("2");
            assert("2"@ =~= seq![digit_char(2)]);
        }
        "2"
    } else if d == 3 {
        proof {
            reveal_strlit("3");
            assert("3"@ =~= seq![digit_char(3)]);
        }
        "3"
    } else if d == 4 {
        proof {
            reveal_strlit("4");
            assert("4"@ =~= seq![digit_char(4)]);
        }
        "4"
    } else if d == 5 {
        proof {
            reveal_strlit("5");
            assert("5"@ =~= seq![digit_char(5)]);
        }
        "5"
    } else if d == 6 {
        proof {
            reveal_strlit("6");
            assert("6"@ =~= seq![digit_char(6)]);
        }
        "6"
    } else if d == 7 {
        proof {
            reveal_strlit("7");
            assert("7"@ =~= seq![digit_char(7)]);
        }
        "7"
    } else if d == 8 {
        proof {
            reveal_strlit("8");
            assert("8"@ =~= seq![digit_char(8)]);
        }
        "8"
    } else {
        proof {
            reveal_strlit("9");
            assert("9"@ =~= seq![digit_char(9)]);
        }
        "9"
    }
}

/// `n` written in decimal, most significant digit first.
pub fn usize_to_decimal(n: usize) -> (s: String)
    ensures
        s@ == dec_str(n as nat),
    decreases n,
{
    if n < 10 {
        let d = digit_str(n);
        let s = String::from_str(d);
        s
    } else {
        let mut s = usize_to_decimal(n / 10);
        s.append(digit_str(n % 10));
        s
    }
}

/// The elementwise kernel source: one work item per element reads the input
/// element into `x` and stores the operation expression's value.
pub open spec fn str_op_source_spec(datatype: Seq<char>, op: Seq<char>) -> Seq<char> {
    "\n        __kernel void str_op(__global const "@ + datatype + "* lhs, __global "@ + datatype
        + "* out) {\n            size_t id = get_global_id(0);\n            "@ + datatype
        + " x = lhs[id];\n            out[id] = "@ + op + ";\n        }\n    "@
}

/// Builds the elementwise kernel source for the element datatype's native
/// type name and the operation expression `op` (an expression over the
/// per-element value `x`).
pub fn cl_str_op_source(datatype: &str, op: &str) -> (r: String)
    ensures
        r@ == str_op_source_spec(datatype@, op@),
{
    let mut s = String::from_str("\n        __kernel void str_op(__global const ");
    s.append(datatype);
    s.append("* lhs, __global ");
    s.append(datatype);
    s.append("* out) {\n            size_t id = get_global_id(0);\n            ");
    s.append(datatype);
    s.append(" x = lhs[id];\n            out[id] = ");
    s.append(op);
    s.append(";\n        }\n    ");
    s
}

/// The scalar kernel source: one work item per element combines the input
/// element with the scalar argument through the operation symbol.
pub open spec fn scalar_op_source_spec(datatype: Seq<char>, op: Seq<char>) -> Seq<char> {
    "\n    __kernel void scalar_r_op(__global const "@ + datatype + "* x, const "@ + datatype
        + " scalar, __global "@ + datatype
        + "* out) {\n        size_t id = get_global_id(0);\n        \n        out[id] = x[id]"@
        + op + "scalar;\n    }\n    "@
}

/// Builds the scalar-broadcast kernel source for the element datatype's
/// native type name and the operation symbol `op`.
pub fn cl_scalar_op_source(datatype: &str, op: &str) -> (r: String)
    ensures
        r@ == scalar_op_source_spec(datatype@, op@),
{
    let mut s = String::from_str("\n    __kernel void scalar_r_op(__global const ");
    s.append(datatype);
    s.append("* x, const ");
    s.append(datatype);
    s.append(" scalar, __global ");
    s.append(datatype);
    s.append("* out) {\n        size_t id = get_global_id(0);\n        \n        out[id] = x[id]");
    s.append(op);
    s.append("scalar;\n    }\n    ");
    s
}

/// The transpose kernel source: the input shape is baked into the text, and
/// each work item remaps its global id by division and modulo by the input
/// column count, writing into the output addressed by the swapped
/// dimensions.
pub open spec fn transpose_source_spec(rows: nat, cols: nat, datatype: Seq<char>) -> Seq<char> {
    "\n        #define MODULO(x,N) (x % N)\n        #define I0 "@ + dec_str(rows)
        + "\n        #define I1 "@ + dec_str(cols)
        + "\n        #define I_idx(i0,i1) ((size_t)(i0))*I1+(i1)\n        #define I_idx_mod(i0,i1) MODULO( ((size_t)(i0)) ,I0)*I1+MODULO( (i1),I1)\n\n        #define MODULO(x,N) (x % N)\n        #define O0 "@
        + dec_str(cols) + "\n        #define O1 "@ + dec_str(rows)
        + "\n        #define O_idx(o0,o1) ((size_t)(o0))*O1+(o1)\n        #define O_idx_mod(o0,o1) MODULO( ((size_t)(o0)) ,O0)*O1+MODULO( (o1),O1)\n        __kernel void transpose(__global const "@
        + datatype + "* I, __global "@ + datatype
        + "* O) {\n            size_t gid = get_global_id(0);\n            size_t gid_original = gid;size_t i1 = gid % I1;size_t i0 = gid / I1;gid = gid_original;\n        \n            O[O_idx(i1,i0)] = I[gid];\n        }\n    \n   "@
}

/// Builds the transpose kernel source for a `rows x cols` input of the
/// element datatype's native type name.
pub fn cl_transpose_source(rows: usize, cols: usize, datatype: &str) -> (r: String)
    ensures
        r@ == transpose_source_spec(rows as nat, cols as nat, datatype@),
{
    let rows_s = usize_to_decimal(rows);
    let cols_s = usize_to_decimal(cols);
    let mut s = String::from_str("\n        #define MODULO(x,N) (x % N)\n        #define I0 ");
    s.append(rows_s.as_str());
    s.append("\n        #define I1 ");
    s.append(cols_s.as_str());
    s.append(
        "\n        #define I_idx(i0,i1) ((size_t)(i0))*I1+(i1)\n        #define I_idx_mod(i0,i1) MODULO( ((size_t)(i0)) ,I0)*I1+MODULO( (i1),I1)\n\n        #define MODULO(x,N) (x % N)\n        #define O0 ",
    );
    s.append(cols_s.as_str());
    s.append("\n        #define O1 ");
    s.append(rows_s.as_str());
    s.append(
        "\n        #define O_idx(o0,o1) ((size_t)(o0))*O1+(o1)\n        #define O_idx_mod(o0,o1) MODULO( ((size_t)(o0)) ,O0)*O1+MODULO( (o1),O1)\n        __kernel void transpose(__global const ",
    );
    s.append(datatype);
    s.append("* I, __global ");
    s.append(datatype);
    s.append(
        "* O) {\n            size_t gid = get_global_id(0);\n            size_t gid_original = gid;size_t i1 = gid % I1;size_t i0 = gid / I1;gid = gid_original;\n        \n            O[O_idx(i1,i0)] = I[gid];\n        }\n    \n   ",
    );
    s
}

} // verus!
