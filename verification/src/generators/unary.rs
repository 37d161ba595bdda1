//! The elementwise unary kernel: one strided input, one dense output.
use vstd::prelude::*;
use vstd::string::StringExecFns;

use crate::ops::UnaryType;
use crate::wgsl::{
    compute_index, compute_strided_offset, shader_header, spec_compute_index,
    spec_compute_strided_offset, spec_serialize_decorator, spec_serialize_strides,
    spec_shader_header, spec_tensor_interface, tensor_interface, workgroup_size,
};

verus! {

/// The WGSL expression a unary operation applies to its operand. `RECIP`
/// divides one by the operand; `IDENTITY` passes it through.
pub open spec fn spec_unary_expr(op: UnaryType, input: Seq<char>) -> Seq<char> {
    match op {
        UnaryType::EXP2 => "exp2("@ + input + ")"@,
        UnaryType::LOG2 => "log2("@ + input + ")"@,
        UnaryType::SIN => "sin("@ + input + ")"@,
        UnaryType::SQRT => "sqrt("@ + input + ")"@,
        UnaryType::RECIP => "1 / ("@ + input + ")"@,
        UnaryType::IDENTITY => input,
    }
}

/// Build the WGSL expression for a unary operation applied to `input`.
pub fn build_webgpu_operation(op: UnaryType, input: &str) -> (r: String)
    ensures
        r@ == spec_unary_expr(op, input@),
{
    match op {
        UnaryType::EXP2 => {
            let mut s = String::from_str("exp2(");
            s.append(input);
            s.append(")");
            s
        },
        UnaryType::LOG2 => {
            let mut s = String::from_str("log2(");
            s.append(input);
            s.append(")");
            s
        },
        UnaryType::SIN => {
            let mut s = String::from_str("sin(");
            s.append(input);
            s.append(")");
            s
        },
        UnaryType::SQRT => {
            let mut s = String::from_str("sqrt(");
            s.append(input);
            s.append(")");
            s
        },
        UnaryType::RECIP => {
            let mut s = String::from_str("1 / (");
            s.append(input);
            s.append(")");
            s
        },
        UnaryType::IDENTITY => String::from_str(input),
    }
}

/// The workgroup extent every kernel is compiled with.
pub open spec fn spec_wg() -> crate::wgsl::WebGPUWorkGroup {
    crate::wgsl::WebGPUWorkGroup { x: 4, y: 4, z: 4 }
}

/// The complete unary kernel.
pub open spec fn spec_build_shader(op: UnaryType) -> Seq<char> {
    "
"@ + spec_shader_header() + "
"@ + spec_serialize_strides(spec_wg(), "WORKGROUP_STRIDE"@) + "
"@ + spec_tensor_interface("0"@, "read"@, "input"@, "array<f32>"@, "input_metadata"@) + "
"@ + spec_tensor_interface("1"@, "read_write"@, "output"@, "array<f32>"@, "output_metadata"@) + "
@compute "@ + spec_serialize_decorator(spec_wg()) + "
fn main(
    @builtin(global_invocation_id) global_id: vec3u
) {
    "@ + spec_compute_index("index"@, "global_id"@, "WORKGROUP_STRIDE"@) + "

    if index >= output_metadata.length {
        return;
    }

    "@ + spec_compute_strided_offset("mapped_index"@, "index"@, "output_metadata"@,
        "input_metadata"@) + "

    output[index] = "@ + spec_unary_expr(op, "input[mapped_index]"@) + ";
}
"@
}

/// Emit the unary kernel: guard against over-dispatch, remap the linear
/// output index into the input's strided space, apply the operation.
pub fn build_shader(op: UnaryType) -> (r: String)
    ensures
        r@ == spec_build_shader(op),
{
    let wg = workgroup_size();
    let mut s = String::from_str(
        "
",
    );
    let header = shader_header();
    s.append(header.as_str());
    s.append(
        "
",
    );
    let strides = wg.serialize_strides("WORKGROUP_STRIDE");
    s.append(strides.as_str());
    s.append(
        "
",
    );
    let in_iface = tensor_interface("0", "read", "input", "array<f32>", "input_metadata");
    s.append(in_iface.as_str());
    s.append(
        "
",
    );
    let out_iface = tensor_interface("1", "read_write", "output", "array<f32>", "output_metadata");
    s.append(out_iface.as_str());
    s.append(
        "
@compute ",
    );
    let decor = wg.serialize_decorator();
    s.append(decor.as_str());
    s.append(
        "
fn main(
    @builtin(global_invocation_id) global_id: vec3u
) {
    ",
    );
    let index = compute_index("index", "global_id", "WORKGROUP_STRIDE");
    s.append(index.as_str());
    s.append(
        "

    if index >= output_metadata.length {
        return;
    }

    ",
    );
    let mapped = compute_strided_offset("mapped_index", "index", "output_metadata",
        "input_metadata");
    s.append(mapped.as_str());
    s.append(
        "

    output[index] = ",
    );
    let body = build_webgpu_operation(op, "input[mapped_index]");
    s.append(body.as_str());
    s.append(
        ";
}
",
    );
    proof {
        assert(s@ =~= spec_build_shader(op));
    }
    s
}

} // verus!
