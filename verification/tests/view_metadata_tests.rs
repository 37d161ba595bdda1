//! View algebra and metadata layout checks on concrete values.
use dtensor::metadata::TensorMetadata;
use dtensor::view::{
    checked_len, compute_output_shape, contains_axis, mapped_index, shapes_broadcast_ok,
    TensorView,
};
use dtensor::wgsl::WebGPUWorkGroup;
use dtensor::tensortype::TensorType;

#[test]
fn contiguous_stride_is_right_cumulative_product() {
    let v = TensorView::from_shape(&vec![2, 3, 4]);
    assert_eq!(v.contiguous_stride, vec![12, 4, 1]);
    assert_eq!(v.stride, vec![12, 4, 1]);
    assert_eq!(v.offset, vec![0, 0, 0]);
    assert_eq!(v.len(), 24);
    assert_eq!(v.dimension(), 3);
    assert!(v.is_contiguous());
    assert!(!v.as_contiguous_required());
}

#[test]
fn length_is_product_of_shape() {
    let v = TensorView::from_shape(&vec![5]);
    assert_eq!(v.len(), 5);
    let w = TensorView::from_shape(&vec![3, 7]);
    assert_eq!(w.len(), 21);
}

#[test]
fn checked_len_rejects_overflow() {
    assert_eq!(checked_len(&vec![6]), Some(6));
    assert_eq!(checked_len(&vec![65536, 65536]), None);
}

#[test]
fn output_shape_right_aligned_maximum() {
    assert_eq!(compute_output_shape(&vec![1, 3], &vec![3, 1]), vec![3, 3]);
    assert_eq!(compute_output_shape(&vec![2, 1], &vec![7]), vec![2, 7]);
    assert_eq!(compute_output_shape(&vec![4], &vec![2, 3, 4]), vec![2, 3, 4]);
}

#[test]
fn broadcast_compatibility() {
    assert!(shapes_broadcast_ok(&vec![1, 3], &vec![3, 1]));
    assert!(shapes_broadcast_ok(&vec![4], &vec![2, 3, 4]));
    assert!(!shapes_broadcast_ok(&vec![2], &vec![3]));
    let a = TensorView::from_shape(&vec![2, 3]);
    let b = TensorView::from_shape(&vec![3]);
    assert!(b.broadcastable_to(&b));
    assert!(TensorView::broadcast(&a, &b).is_ok());
    let c = TensorView::from_shape(&vec![2]);
    assert!(TensorView::broadcast(&a, &c).is_err());
}

#[test]
fn projection_gives_zero_stride_on_broadcast_dims() {
    let src = TensorView::from_shape(&vec![3]);
    let out = TensorView::from_shape(&vec![3, 3]);
    let p = TensorView::project_for_broadcast(&src, &out);
    assert_eq!(p.shape, vec![3, 3]);
    // The leading dimension is missing in the source: replicated, stride 0.
    assert_eq!(p.stride, vec![0, 1]);
    let src2 = TensorView::from_shape(&vec![3, 1]);
    let p2 = TensorView::project_for_broadcast(&src2, &out);
    // The trailing dimension has extent 1 in the source: stride 0.
    assert_eq!(p2.stride, vec![1, 0]);
}

#[test]
fn reduce_view_collapses_axes() {
    let v = TensorView::from_shape(&vec![2, 3, 4]);
    let r = v.reduce(&vec![1]);
    assert_eq!(r.shape, vec![2, 1, 4]);
    assert_eq!(r.contiguous_stride, vec![4, 4, 1]);
    let unchanged = v.reduce(&vec![]);
    assert_eq!(unchanged.shape, vec![2, 3, 4]);
    assert!(contains_axis(&vec![0, 2], 2));
    assert!(!contains_axis(&vec![0, 2], 1));
}

#[test]
fn mapped_index_identity_on_contiguous() {
    let v = TensorView::from_shape(&vec![2, 3]);
    for i in 0..6u32 {
        assert_eq!(mapped_index(&v.contiguous_stride, &v.stride, i), i);
    }
}

#[test]
fn mapped_index_broadcast_replicates() {
    // Output 3x3; input column vector [3,1] projected: stride [1,0].
    let out = TensorView::from_shape(&vec![3, 3]);
    let src = TensorView::from_shape(&vec![3, 1]);
    let p = TensorView::project_for_broadcast(&src, &out);
    let mapped: Vec<u32> = (0..9u32)
        .map(|i| mapped_index(&out.contiguous_stride, &p.stride, i))
        .collect();
    assert_eq!(mapped, vec![0, 0, 0, 1, 1, 1, 2, 2, 2]);
}

#[test]
fn metadata_layout_words_and_bytes() {
    let v = TensorView::from_shape(&vec![2, 3]);
    let m = TensorMetadata::from_view(&v);
    assert_eq!(m.length, 6);
    assert_eq!(m.dimension, 2);
    assert_eq!(m.shape_offset, 0);
    assert_eq!(m.stride_offset, 2);
    assert_eq!(m.contiguous_stride_offset, 4);
    assert_eq!(m.offset_offset, 6);
    assert_eq!(
        m.metadata,
        vec![6, 2, 0, 2, 4, 6, 2, 3, 3, 1, 3, 1, 0, 0]
    );
    assert_eq!(m.metadata.len(), 6 + 4 * 2);
    let bytes = m.bytes();
    assert_eq!(bytes.len(), 4 * (6 + 4 * 2));
    assert_eq!(&bytes[0..4], &[6, 0, 0, 0]);
    assert_eq!(&bytes[4..8], &[2, 0, 0, 0]);
}

#[test]
fn metadata_new_keeps_fields() {
    let m = TensorMetadata::new(4, 1, 0, 1, 2, 3, vec![4, 1, 0, 1, 2, 3, 4, 1, 1, 0]);
    assert_eq!(m.length, 4);
    assert_eq!(m.dimension, 1);
    assert_eq!(m.metadata.len(), 10);
}

#[test]
fn dispatch_counts_cover_output() {
    let wg = WebGPUWorkGroup::from_len(5);
    assert_eq!((wg.x, wg.y, wg.z), (5, 1, 1));
    let c = wg.dispatch_counts();
    assert_eq!((c.x, c.y, c.z), (2, 1, 1));
    // 64 invocations per workgroup: the grid covers all five elements.
    assert!(4 * c.x * 4 * c.y * 4 * c.z >= 5);
    let big = WebGPUWorkGroup::from_len(64).dispatch_counts();
    assert_eq!(big.x, 17);
}

#[test]
fn tensortype_sizes_and_agreement() {
    assert_eq!(TensorType::I32.byte_size(), 4);
    assert_eq!(TensorType::U32.byte_size(), 4);
    assert_eq!(TensorType::F32.byte_size(), 4);
    assert_eq!(TensorType::F16.byte_size(), 2);
    assert_eq!(TensorType::F32.agreeable_type(TensorType::F32), TensorType::F32);
    assert_eq!(TensorType::I32.agreeable_type(TensorType::F16), TensorType::F32);
    assert_eq!(TensorType::F16.agreeable_type(TensorType::F16), TensorType::F16);
}
