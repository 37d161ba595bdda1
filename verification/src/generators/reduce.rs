//! The reduction kernel: each invocation owns one output cell and folds the
//! product of the reduced extents of the input within a loop nest, starting
//! from the operation's identity element.
use vstd::prelude::*;
use vstd::string::StringExecFns;

use crate::ops::ReduceType;
use crate::wgsl::{
    compute_index, compute_strided_offset, shader_header, spec_compute_index,
    spec_compute_strided_offset, spec_serialize_decorator, spec_serialize_strides,
    spec_shader_header, spec_tensor_interface, spec_decimal, tensor_interface, u32_string,
    workgroup_size,
};
use crate::generators::unary::spec_wg;

verus! {

/// The WGSL literal of a reduction's identity element. `MAX` starts from the
/// lowest finite 32-bit float, the closest WGSL notation of negative
/// infinity.
pub open spec fn spec_reduce_identity(op: ReduceType) -> Seq<char> {
    match op {
        ReduceType::SUM => "0f"@,
        ReduceType::MAX => "-3.40282347e+38f"@,
        ReduceType::MUL => "1f"@,
    }
}

/// The WGSL expression folding one input element into the accumulator.
pub open spec fn spec_reduce_update(op: ReduceType) -> Seq<char> {
    match op {
        ReduceType::SUM => "acc + input[pos]"@,
        ReduceType::MAX => "max(acc, input[pos])"@,
        ReduceType::MUL => "acc * input[pos]"@,
    }
}

pub fn reduce_identity(op: ReduceType) -> (r: &'static str)
    ensures
        r@ == spec_reduce_identity(op),
{
    match op {
        ReduceType::SUM => "0f",
        ReduceType::MAX => "-3.40282347e+38f",
        ReduceType::MUL => "1f",
    }
}

pub fn reduce_update(op: ReduceType) -> (r: &'static str)
    ensures
        r@ == spec_reduce_update(op),
{
    match op {
        ReduceType::SUM => "acc + input[pos]",
        ReduceType::MAX => "max(acc, input[pos])",
        ReduceType::MUL => "acc * input[pos]",
    }
}

/// The strided contribution of the loop counters to the input position: one
/// term per reduced axis, each weighted by the input stride of that axis.
pub open spec fn spec_reduce_pos_terms(axes: Seq<u32>, k: int) -> Seq<char>
    decreases axes.len() - k,
{
    if k < 0 || k >= axes.len() {
        Seq::empty()
    } else {
        " + i"@ + spec_decimal(axes[k] as int)
            + " * input_metadata.metadata[input_metadata.stride_offset + "@ + spec_decimal(
            axes[k] as int,
        ) + "u]"@ + spec_reduce_pos_terms(axes, k + 1)
    }
}

/// One `for` loop per reduced axis, bounded by the input extent of that axis
/// read from the metadata buffer, wrapped around `inner`.
pub open spec fn spec_reduce_axis_loops(axes: Seq<u32>, k: int, inner: Seq<char>) -> Seq<char>
    decreases axes.len() - k,
{
    if k < 0 || k >= axes.len() {
        inner
    } else {
        "for (var i"@ + spec_decimal(axes[k] as int) + " = 0u; i"@ + spec_decimal(
            axes[k] as int,
        ) + " < input_metadata.metadata[input_metadata.shape_offset + "@ + spec_decimal(
            axes[k] as int,
        ) + "u]; i"@ + spec_decimal(axes[k] as int) + "++) {
    "@ + spec_reduce_axis_loops(axes, k + 1, inner) + "
    }"@
    }
}

fn reduce_pos_terms(axes: &Vec<u32>, k: usize) -> (r: String)
    requires
        k <= axes@.len(),
    ensures
        r@ == spec_reduce_pos_terms(axes@, k as int),
    decreases axes@.len() - k,
{
    if k >= axes.len() {
        let r = String::new();
        proof {
            assert(r@ =~= spec_reduce_pos_terms(axes@, k as int));
        }
        r
    } else {
        let mut s = String::from_str(" + i");
        let a = u32_string(axes[k]);
        s.append(a.as_str());
        s.append(" * input_metadata.metadata[input_metadata.stride_offset + ");
        s.append(a.as_str());
        s.append("u]");
        let rest = reduce_pos_terms(axes, k + 1);
        s.append(rest.as_str());
        proof {
            assert(s@ =~= spec_reduce_pos_terms(axes@, k as int));
        }
        s
    }
}

fn reduce_axis_loops(axes: &Vec<u32>, k: usize, inner: &str) -> (r: String)
    requires
        k <= axes@.len(),
    ensures
        r@ == spec_reduce_axis_loops(axes@, k as int, inner@),
    decreases axes@.len() - k,
{
    if k >= axes.len() {
        String::from_str(inner)
    } else {
        let mut s = String::from_str("for (var i");
        let a = u32_string(axes[k]);
        s.append(a.as_str());
        s.append(" = 0u; i");
        s.append(a.as_str());
        s.append(" < input_metadata.metadata[input_metadata.shape_offset + ");
        s.append(a.as_str());
        s.append("u]; i");
        s.append(a.as_str());
        s.append(
            "++) {
    ",
        );
        let rest = reduce_axis_loops(axes, k + 1, inner);
        s.append(rest.as_str());
        s.append(
            "
    }",
        );
        proof {
            assert(s@ =~= spec_reduce_axis_loops(axes@, k as int, inner@));
        }
        s
    }
}

/// The loop-nest body: re-linearize the counters against the input strides
/// and fold the element into the accumulator.
pub open spec fn spec_reduce_inner(op: ReduceType, axes: Seq<u32>) -> Seq<char> {
    "let pos = base"@ + spec_reduce_pos_terms(axes, 0) + ";
    acc = "@ + spec_reduce_update(op) + ";"@
}

/// The complete reduction kernel.
pub open spec fn spec_build_shader(op: ReduceType, axes: Seq<u32>) -> Seq<char> {
    "
"@ + spec_shader_header() + "
"@ + spec_serialize_strides(spec_wg(), "WORKGROUP_STRIDE"@) + "
"@ + spec_tensor_interface("0"@, "read"@, "input"@, "array<f32>"@, "input_metadata"@) + "
"@ + spec_tensor_interface("1"@, "read_write"@, "output"@, "array<f32>"@, "output_metadata"@) + "
@compute "@ + spec_serialize_decorator(spec_wg()) + "
fn main(
    @builtin(global_invocation_id) global_id: vec3u
) {
    "@ + spec_compute_index("index"@, "global_id"@, "WORKGROUP_STRIDE"@) + "

    if index >= output_metadata.length {
        return;
    }

    "@ + spec_compute_strided_offset("base"@, "index"@, "output_metadata"@, "input_metadata"@) + "

    var acc: f32 = "@ + spec_reduce_identity(op) + ";
    "@ + spec_reduce_axis_loops(axes, 0, spec_reduce_inner(op, axes)) + "
    output[index] = acc;
}
"@
}

/// Emit the reduction kernel. The loop bounds come from the input's extents
/// at the reduced axes; the output cell's origin is found with the usual
/// strided remapping, where reduced axes contribute zero because the output
/// extent there is one.
pub fn build_shader(op: ReduceType, axes: &Vec<u32>) -> (r: String)
    ensures
        r@ == spec_build_shader(op, axes@),
{
    let wg = workgroup_size();
    let mut s = String::from_str(
        "
",
    );
    let header = shader_header();
    s.append(header.as_str());
    s.append(
        "
",
    );
    let strides = wg.serialize_strides("WORKGROUP_STRIDE");
    s.append(strides.as_str());
    s.append(
        "
",
    );
    let in_iface = tensor_interface("0", "read", "input", "array<f32>", "input_metadata");
    s.append(in_iface.as_str());
    s.append(
        "
",
    );
    let out_iface = tensor_interface("1", "read_write", "output", "array<f32>", "output_metadata");
    s.append(out_iface.as_str());
    s.append(
        "
@compute ",
    );
    let decor = wg.serialize_decorator();
    s.append(decor.as_str());
    s.append(
        "
fn main(
    @builtin(global_invocation_id) global_id: vec3u
) {
    ",
    );
    let index = compute_index("index", "global_id", "WORKGROUP_STRIDE");
    s.append(index.as_str());
    s.append(
        "

    if index >= output_metadata.length {
        return;
    }

    ",
    );
    let base = compute_strided_offset("base", "index", "output_metadata", "input_metadata");
    s.append(base.as_str());
    s.append(
        "

    var acc: f32 = ",
    );
    s.append(reduce_identity(op));
    s.append(
        ";
    ",
    );
    let mut inner = String::from_str("let pos = base");
    let terms = reduce_pos_terms(axes, 0);
    inner.append(terms.as_str());
    inner.append(
        ";
    acc = ",
    );
    inner.append(reduce_update(op));
    inner.append(";");
    proof {
        assert(inner@ =~= spec_reduce_inner(op, axes@));
    }
    let loops = reduce_axis_loops(axes, 0, inner.as_str());
    s.append(loops.as_str());
    s.append(
        "
    output[index] = acc;
}
",
    );
    proof {
        assert(s@ =~= spec_build_shader(op, axes@));
    }
    s
}

} // verus!
