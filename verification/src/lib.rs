//! A small tensor computation engine that compiles a lazy DAG of tensor
//! operations into GPU compute-shader source, plans the dispatches, and
//! accounts for buffer lifetimes; together with a capability-matching work
//! scheduler speaking a byte-level wire protocol.
use vstd::prelude::*;

pub mod codec;
pub mod generators;
pub mod graph;
pub mod metadata;
pub mod ir;
pub mod ops;
pub mod pipeline;
pub mod scheduler;
pub mod tensortype;
pub mod view;
pub mod wgsl;

verus! {

/// The error kinds of the engine, per failure site: shape or broadcast
/// violations at graph construction, missing materialized dependencies during
/// evaluation (a bug), and failures reported by the GPU backend.
#[derive(Clone, Copy, Debug, PartialEq, Eq, Structural)]
pub enum TensorError {
    InvalidShape,
    InvariantViolation,
    BackendError,
}

impl TensorError {
    /// A short human-readable name for the error kind.
    pub fn describe(&self) -> (r: &'static str)
        ensures
            matches!(*self, TensorError::InvalidShape) ==> r@ == "invalid shape"@,
            matches!(*self, TensorError::InvariantViolation) ==> r@ == "invariant violation"@,
            matches!(*self, TensorError::BackendError) ==> r@ == "backend error"@,
    {
        match self {
            TensorError::InvalidShape => "invalid shape",
            TensorError::InvariantViolation => "invariant violation",
            TensorError::BackendError => "backend error",
        }
    }
}

} // verus!
