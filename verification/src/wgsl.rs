//! WGSL text generation: decimal formatting of metadata words, workgroup
//! dimensioning text, storage-buffer interfaces, and the index-linearization
//! and strided-offset snippets shared by every kernel.
use vstd::prelude::*;
use vstd::string::StringExecFns;

use crate::metadata::spec_metadata_definition;

verus! {

/// The decimal digit character of `d`.
pub open spec fn spec_digit(d: int) -> Seq<char> {
    if d == 0 {
        "0"@
    } else if d == 1 {
        "1"@
    } else if d == 2 {
        "2"@
    } else if d == 3 {
        "3"@
    } else if d == 4 {
        "4"@
    } else if d == 5 {
        "5"@
    } else if d == 6 {
        "6"@
    } else if d == 7 {
        "7"@
    } else if d == 8 {
        "8"@
    } else {
        "9"@
    }
}

/// The usual decimal notation of a non-negative integer.
pub open spec fn spec_decimal(n: int) -> Seq<char>
    decreases n,
{
    if n < 10 {
        spec_digit(n)
    } else {
        spec_decimal(n / 10) + spec_digit(n % 10)
    }
}

pub fn digit_str(d: u32) -> (r: &'static str)
    requires
        d < 10,
    ensures
        r@ == spec_digit(d as int),
{
    if d == 0 {
        "0"
    } else if d == 1 {
        "1"
    } else if d == 2 {
        "2"
    } else if d == 3 {
        "3"
    } else if d == 4 {
        "4"
    } else if d == 5 {
        "5"
    } else if d == 6 {
        "6"
    } else if d == 7 {
        "7"
    } else if d == 8 {
        "8"
    } else {
        "9"
    }
}

/// Decimal notation of a 32-bit word.
pub fn u32_string(n: u32) -> (r: String)
    ensures
        r@ == spec_decimal(n as int),
    decreases n,
{
    if n < 10 {
        String::from_str(digit_str(n))
    } else {
        let mut s = u32_string(n / 10);
        s.append(digit_str(n % 10));
        s
    }
}

/// A three-dimensional workgroup extent, and also a three-dimensional
/// dispatch extent derived from an output view.
#[derive(Clone, Copy, Debug)]
pub struct WebGPUWorkGroup {
    pub x: u32,
    pub y: u32,
    pub z: u32,
}

/// The fixed per-kernel workgroup extent.
pub fn workgroup_size() -> (r: WebGPUWorkGroup)
    ensures
        r.x == 4 && r.y == 4 && r.z == 4,
{
    WebGPUWorkGroup::new(4, 4, 4)
}

/// The WGSL constant declaration binding `variable_name` to the strides of a
/// row-major walk of a workgroup's invocations.
pub open spec fn spec_serialize_strides(w: WebGPUWorkGroup, variable_name: Seq<char>) -> Seq<
    char,
> {
    "
const "@ + variable_name + ": vec3u = vec3u("@ + spec_decimal(w.y * w.z) + "u, "@
        + spec_decimal(w.z as int) + "u, 1u);
"@
}

/// The `@workgroup_size` decorator text.
pub open spec fn spec_serialize_decorator(w: WebGPUWorkGroup) -> Seq<char> {
    "@workgroup_size("@ + spec_decimal(w.x as int) + ", "@ + spec_decimal(w.y as int) + ", "@
        + spec_decimal(w.z as int) + ")"@
}

impl WebGPUWorkGroup {
    pub fn new(x: u32, y: u32, z: u32) -> (r: WebGPUWorkGroup)
        ensures
            r.x == x && r.y == y && r.z == z,
    {
        WebGPUWorkGroup { x, y, z }
    }

    /// Emit the linearization strides `(y·z, z, 1)` of this workgroup as a
    /// WGSL `vec3u` constant.
    pub fn serialize_strides(&self, variable_name: &str) -> (r: String)
        requires
            self.y * self.z <= u32::MAX,
        ensures
            r@ == spec_serialize_strides(*self, variable_name@),
    {
        let mut s = String::from_str(
            "
const ",
        );
        s.append(variable_name);
        s.append(": vec3u = vec3u(");
        let sx = u32_string(self.y * self.z);
        s.append(sx.as_str());
        s.append("u, ");
        let sy = u32_string(self.z);
        s.append(sy.as_str());
        s.append(
            "u, 1u);
",
        );
        proof {
            assert(s@ =~= spec_serialize_strides(*self, variable_name@));
        }
        s
    }

    /// Emit the `@workgroup_size(x, y, z)` decorator.
    pub fn serialize_decorator(&self) -> (r: String)
        ensures
            r@ == spec_serialize_decorator(*self),
    {
        let mut s = String::from_str("@workgroup_size(");
        let sx = u32_string(self.x);
        s.append(sx.as_str());
        s.append(", ");
        let sy = u32_string(self.y);
        s.append(sy.as_str());
        s.append(", ");
        let sz = u32_string(self.z);
        s.append(sz.as_str());
        s.append(")");
        proof {
            assert(s@ =~= spec_serialize_decorator(*self));
        }
        s
    }
}

/// The header shared by every kernel: the metadata struct declaration.
pub open spec fn spec_shader_header() -> Seq<char> {
    spec_metadata_definition()
}

pub fn shader_header() -> (r: String)
    ensures
        r@ == spec_shader_header(),
{
    crate::metadata::TensorMetadata::serialize_definition()
}

/// A pair of storage-buffer bindings for one tensor: its metadata at binding
/// zero of the group and its data array at binding one.
pub open spec fn spec_tensor_interface(
    group: Seq<char>,
    access: Seq<char>,
    name: Seq<char>,
    array_type: Seq<char>,
    metadata_name: Seq<char>,
) -> Seq<char> {
    "
@group("@ + group + ") @binding(0)
var<storage, read> "@ + metadata_name + ": TensorMetadata;

@group("@ + group + ") @binding(1)
var<storage, "@ + access + "> "@ + name + ": "@ + array_type + ";
"@
}

pub fn tensor_interface(
    group: &str,
    access: &str,
    name: &str,
    array_type: &str,
    metadata_name: &str,
) -> (r: String)
    ensures
        r@ == spec_tensor_interface(group@, access@, name@, array_type@, metadata_name@),
{
    let mut s = String::from_str(
        "
@group(",
    );
    s.append(group);
    s.append(
        ") @binding(0)
var<storage, read> ",
    );
    s.append(metadata_name);
    s.append(
        ": TensorMetadata;

@group(",
    );
    s.append(group);
    s.append(
        ") @binding(1)
var<storage, ",
    );
    s.append(access);
    s.append("> ");
    s.append(name);
    s.append(": ");
    s.append(array_type);
    s.append(
        ";
",
    );
    proof {
        assert(s@ =~= spec_tensor_interface(group@, access@, name@, array_type@, metadata_name@));
    }
    s
}

/// `let {variable} = dot({global_id}, {strides});` — the linear invocation
/// index.
pub open spec fn spec_compute_index(
    variable: Seq<char>,
    global_id: Seq<char>,
    strides: Seq<char>,
) -> Seq<char> {
    "let "@ + variable + " = dot("@ + global_id + ", "@ + strides + ");"@
}

pub fn compute_index(variable: &str, global_id: &str, strides: &str) -> (r: String)
    ensures
        r@ == spec_compute_index(variable@, global_id@, strides@),
{
    let mut s = String::from_str("let ");
    s.append(variable);
    s.append(" = dot(");
    s.append(global_id);
    s.append(", ");
    s.append(strides);
    s.append(");");
    proof {
        assert(s@ =~= spec_compute_index(variable@, global_id@, strides@));
    }
    s
}

/// The strided-offset remapping loop: walk the output's contiguous strides,
/// re-linearizing each coordinate with the input's strides (zero on
/// broadcast dimensions).
pub open spec fn spec_compute_strided_offset(
    variable: Seq<char>,
    linear_index: Seq<char>,
    output_metadata: Seq<char>,
    input_metadata: Seq<char>,
) -> Seq<char> {
    "var "@ + variable + "_tmp: u32 = "@ + linear_index + ";
    var "@ + variable + ": u32 = 0u;
    for (var i = 0u; i < "@ + output_metadata + ".dimension; i++) {
        let contiguous_stride = "@ + output_metadata + ".metadata["@ + output_metadata
        + ".contiguous_stride_offset + i];
        let stride = "@ + input_metadata + ".metadata["@ + input_metadata + ".stride_offset + i];
        "@ + variable + " = "@ + variable + " + ("@ + variable + "_tmp / contiguous_stride) * stride;
        "@ + variable + "_tmp = "@ + variable + "_tmp % contiguous_stride;
    }"@
}

pub fn compute_strided_offset(
    variable: &str,
    linear_index: &str,
    output_metadata: &str,
    input_metadata: &str,
) -> (r: String)
    ensures
        r@ == spec_compute_strided_offset(
            variable@,
            linear_index@,
            output_metadata@,
            input_metadata@,
        ),
{
    let mut s = String::from_str("var ");
    s.append(variable);
    s.append("_tmp: u32 = ");
    s.append(linear_index);
    s.append(
        ";
    var ",
    );
    s.append(variable);
    s.append(
        ": u32 = 0u;
    for (var i = 0u; i < ",
    );
    s.append(output_metadata);
    s.append(
        ".dimension; i++) {
        let contiguous_stride = ",
    );
    s.append(output_metadata);
    s.append(".metadata[");
    s.append(output_metadata);
    s.append(
        ".contiguous_stride_offset + i];
        let stride = ",
    );
    s.append(input_metadata);
    s.append(".metadata[");
    s.append(input_metadata);
    s.append(
        ".stride_offset + i];
        ",
    );
    s.append(variable);
    s.append(" = ");
    s.append(variable);
    s.append(" + (");
    s.append(variable);
    s.append(
        "_tmp / contiguous_stride) * stride;
        ",
    );
    s.append(variable);
    s.append("_tmp = ");
    s.append(variable);
    s.append(
        "_tmp % contiguous_stride;
    }",
    );
    proof {
        assert(s@ =~= spec_compute_strided_offset(
            variable@,
            linear_index@,
            output_metadata@,
            input_metadata@,
        ));
    }
    s
}

} // verus!
