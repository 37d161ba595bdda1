//! The elementwise binary kernel: two broadcast-projected inputs, one dense
//! output.
use vstd::prelude::*;
use vstd::string::StringExecFns;

use crate::ops::BinaryType;
use crate::wgsl::{
    compute_index, compute_strided_offset, shader_header, spec_compute_index,
    spec_compute_strided_offset, spec_serialize_decorator, spec_serialize_strides,
    spec_shader_header, spec_tensor_interface, tensor_interface, workgroup_size,
};
use crate::generators::unary::spec_wg;

verus! {

/// The WGSL expression combining the two operands. Comparisons produce `1f`
/// for true and `0f` for false.
pub open spec fn spec_binary_expr(op: BinaryType, lhs: Seq<char>, rhs: Seq<char>) -> Seq<char> {
    match op {
        BinaryType::ADD => lhs + " + "@ + rhs,
        BinaryType::SUB => lhs + " - "@ + rhs,
        BinaryType::MUL => lhs + " * "@ + rhs,
        BinaryType::DIV => lhs + " / "@ + rhs,
        BinaryType::MAX => "max("@ + lhs + ", "@ + rhs + ")"@,
        BinaryType::MOD => lhs + " % "@ + rhs,
        BinaryType::EQ => "select(0f, 1f, "@ + lhs + " == "@ + rhs + ")"@,
        BinaryType::LT => "select(0f, 1f, "@ + lhs + " < "@ + rhs + ")"@,
    }
}

/// Build the WGSL expression combining the two operand expressions.
pub fn build_binary_operation(op: BinaryType, lhs: &str, rhs: &str) -> (r: String)
    ensures
        r@ == spec_binary_expr(op, lhs@, rhs@),
{
    match op {
        BinaryType::ADD => {
            let mut s = String::from_str(lhs);
            s.append(" + ");
            s.append(rhs);
            s
        },
        BinaryType::SUB => {
            let mut s = String::from_str(lhs);
            s.append(" - ");
            s.append(rhs);
            s
        },
        BinaryType::MUL => {
            let mut s = String::from_str(lhs);
            s.append(" * ");
            s.append(rhs);
            s
        },
        BinaryType::DIV => {
            let mut s = String::from_str(lhs);
            s.append(" / ");
            s.append(rhs);
            s
        },
        BinaryType::MAX => {
            let mut s = String::from_str("max(");
            s.append(lhs);
            s.append(", ");
            s.append(rhs);
            s.append(")");
            s
        },
        BinaryType::MOD => {
            let mut s = String::from_str(lhs);
            s.append(" % ");
            s.append(rhs);
            s
        },
        BinaryType::EQ => {
            let mut s = String::from_str("select(0f, 1f, ");
            s.append(lhs);
            s.append(" == ");
            s.append(rhs);
            s.append(")");
            s
        },
        BinaryType::LT => {
            let mut s = String::from_str("select(0f, 1f, ");
            s.append(lhs);
            s.append(" < ");
            s.append(rhs);
            s.append(")");
            s
        },
    }
}

/// The complete binary kernel.
pub open spec fn spec_build_shader(op: BinaryType) -> Seq<char> {
    "
"@ + spec_shader_header() + "
"@ + spec_serialize_strides(spec_wg(), "WORKGROUP_STRIDE"@) + "
"@ + spec_tensor_interface("0"@, "read"@, "lhs"@, "array<f32>"@, "lhs_metadata"@) + "
"@ + spec_tensor_interface("1"@, "read"@, "rhs"@, "array<f32>"@, "rhs_metadata"@) + "
"@ + spec_tensor_interface("2"@, "read_write"@, "output"@, "array<f32>"@, "output_metadata"@) + "
@compute "@ + spec_serialize_decorator(spec_wg()) + "
fn main(
    @builtin(global_invocation_id) global_id: vec3u
) {
    "@ + spec_compute_index("index"@, "global_id"@, "WORKGROUP_STRIDE"@) + "

    if index >= output_metadata.length {
        return;
    }

    "@ + spec_compute_strided_offset("mapped_index_lhs"@, "index"@, "output_metadata"@,
        "lhs_metadata"@) + "

    "@ + spec_compute_strided_offset("mapped_index_rhs"@, "index"@, "output_metadata"@,
        "rhs_metadata"@) + "

    output[index] = "@ + spec_binary_expr(op, "lhs[mapped_index_lhs]"@, "rhs[mapped_index_rhs]"@)
        + ";
}
"@
}

/// Emit the binary kernel: guard, one strided remapping per operand
/// (broadcast dimensions carry stride zero), combine.
pub fn build_shader(op: BinaryType) -> (r: String)
    ensures
        r@ == spec_build_shader(op),
{
    let wg = workgroup_size();
    let mut s = String::from_str(
        "
",
    );
    let header = shader_header();
    s.append(header.as_str());
    s.append(
        "
",
    );
    let strides = wg.serialize_strides("WORKGROUP_STRIDE");
    s.append(strides.as_str());
    s.append(
        "
",
    );
    let lhs_iface = tensor_interface("0", "read", "lhs", "array<f32>", "lhs_metadata");
    s.append(lhs_iface.as_str());
    s.append(
        "
",
    );
    let rhs_iface = tensor_interface("1", "read", "rhs", "array<f32>", "rhs_metadata");
    s.append(rhs_iface.as_str());
    s.append(
        "
",
    );
    let out_iface = tensor_interface("2", "read_write", "output", "array<f32>", "output_metadata");
    s.append(out_iface.as_str());
    s.append(
        "
@compute ",
    );
    let decor = wg.serialize_decorator();
    s.append(decor.as_str());
    s.append(
        "
fn main(
    @builtin(global_invocation_id) global_id: vec3u
) {
    ",
    );
    let index = compute_index("index", "global_id", "WORKGROUP_STRIDE");
    s.append(index.as_str());
    s.append(
        "

    if index >= output_metadata.length {
        return;
    }

    ",
    );
    let mapped_lhs = compute_strided_offset("mapped_index_lhs", "index", "output_metadata",
        "lhs_metadata");
    s.append(mapped_lhs.as_str());
    s.append(
        "

    ",
    );
    let mapped_rhs = compute_strided_offset("mapped_index_rhs", "index", "output_metadata",
        "rhs_metadata");
    s.append(mapped_rhs.as_str());
    s.append(
        "

    output[index] = ",
    );
    let body = build_binary_operation(op, "lhs[mapped_index_lhs]", "rhs[mapped_index_rhs]");
    s.append(body.as_str());
    s.append(
        ";
}
",
    );
    proof {
        assert(s@ =~= spec_build_shader(op));
    }
    s
}

} // verus!
