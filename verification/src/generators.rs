//! Per-operation compute-shader generators. Each kernel follows the shared
//! template: header, workgroup strides, storage-buffer interfaces, the linear
//! invocation index, an over-dispatch guard, strided-offset remapping, and an
//! operation-specific body.
pub mod binary;
pub mod reduce;
pub mod reshape;
pub mod unary;
