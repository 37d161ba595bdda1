//! Generated WGSL text on concrete inputs.
use dtensor::generators::binary::build_binary_operation;
use dtensor::generators::unary::build_webgpu_operation;
use dtensor::metadata::TensorMetadata;
use dtensor::ops::{BinaryType, ReduceType, UnaryType};
use dtensor::wgsl::{compute_index, tensor_interface, u32_string, WebGPUWorkGroup};

#[test]
fn decimal_notation() {
    assert_eq!(u32_string(0), "0");
    assert_eq!(u32_string(7), "7");
    assert_eq!(u32_string(42), "42");
    assert_eq!(u32_string(4294967295), "4294967295");
}

#[test]
fn workgroup_decorator_text() {
    let wg = WebGPUWorkGroup::new(4, 4, 4);
    assert_eq!(wg.serialize_decorator(), "@workgroup_size(4, 4, 4)");
}

#[test]
fn workgroup_strides_text() {
    let wg = WebGPUWorkGroup::new(4, 4, 4);
    assert_eq!(
        wg.serialize_strides("WORKGROUP_STRIDE"),
        "\nconst WORKGROUP_STRIDE: vec3u = vec3u(16u, 4u, 1u);\n"
    );
}

#[test]
fn compute_index_text() {
    assert_eq!(
        compute_index("index", "global_id", "WORKGROUP_STRIDE"),
        "let index = dot(global_id, WORKGROUP_STRIDE);"
    );
}

#[test]
fn metadata_definition_text() {
    let d = TensorMetadata::serialize_definition();
    assert!(d.contains("struct TensorMetadata"));
    assert!(d.contains("metadata: array<u32>,"));
}

#[test]
fn tensor_interface_text() {
    let t = tensor_interface("0", "read", "input", "array<f32>", "input_metadata");
    assert!(t.contains("@group(0) @binding(0)"));
    assert!(t.contains("var<storage, read> input_metadata: TensorMetadata;"));
    assert!(t.contains("@group(0) @binding(1)"));
    assert!(t.contains("var<storage, read> input: array<f32>;"));
}

#[test]
fn unary_operation_expressions() {
    assert_eq!(build_webgpu_operation(UnaryType::EXP2, "x"), "exp2(x)");
    assert_eq!(build_webgpu_operation(UnaryType::LOG2, "x"), "log2(x)");
    assert_eq!(build_webgpu_operation(UnaryType::SIN, "x"), "sin(x)");
    assert_eq!(build_webgpu_operation(UnaryType::SQRT, "x"), "sqrt(x)");
    assert_eq!(build_webgpu_operation(UnaryType::RECIP, "x"), "1 / (x)");
    assert_eq!(build_webgpu_operation(UnaryType::IDENTITY, "x"), "x");
}

#[test]
fn binary_operation_expressions() {
    assert_eq!(build_binary_operation(BinaryType::ADD, "a", "b"), "a + b");
    assert_eq!(build_binary_operation(BinaryType::MAX, "a", "b"), "max(a, b)");
    assert_eq!(
        build_binary_operation(BinaryType::EQ, "a", "b"),
        "select(0f, 1f, a == b)"
    );
}

#[test]
fn unary_shader_has_guard_and_body() {
    let s = dtensor::generators::unary::build_shader(UnaryType::EXP2);
    assert!(s.contains("@compute @workgroup_size(4, 4, 4)"));
    assert!(s.contains("if index >= output_metadata.length {"));
    assert!(s.contains("output[index] = exp2(input[mapped_index]);"));
    assert!(s.contains("let index = dot(global_id, WORKGROUP_STRIDE);"));
}

#[test]
fn binary_shader_has_two_remappings() {
    let s = dtensor::generators::binary::build_shader(BinaryType::ADD);
    assert!(s.contains("var mapped_index_lhs: u32 = 0u;"));
    assert!(s.contains("var mapped_index_rhs: u32 = 0u;"));
    assert!(s.contains("output[index] = lhs[mapped_index_lhs] + rhs[mapped_index_rhs];"));
}

#[test]
fn reduce_shader_loops_over_axes() {
    let s = dtensor::generators::reduce::build_shader(ReduceType::SUM, &vec![1]);
    assert!(s.contains("var acc: f32 = 0f;"));
    assert!(s.contains(
        "for (var i1 = 0u; i1 < input_metadata.metadata[input_metadata.shape_offset + 1u]; i1++) {"
    ));
    assert!(s.contains("acc = acc + input[pos];"));
    assert!(s.contains("output[index] = acc;"));
    let m = dtensor::generators::reduce::build_shader(ReduceType::MAX, &vec![0]);
    assert!(m.contains("var acc: f32 = -3.40282347e+38f;"));
    assert!(m.contains("acc = max(acc, input[pos]);"));
}

#[test]
fn reshape_shader_is_identity_copy() {
    let s = dtensor::generators::reshape::build_shader();
    assert!(s.contains("output[index] = input[mapped_index];"));
}
