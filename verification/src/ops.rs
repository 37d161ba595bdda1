//! The operation kinds a graph node can carry: elementwise unary and binary
//! arithmetic and reductions along axes.
use vstd::prelude::*;

verus! {

/// Elementwise unary operations.
#[derive(Clone, Copy, Debug, PartialEq, Eq, Structural)]
pub enum UnaryType {
    EXP2,
    LOG2,
    SIN,
    SQRT,
    RECIP,
    IDENTITY,
}

/// Elementwise binary operations with broadcasting.
#[derive(Clone, Copy, Debug, PartialEq, Eq, Structural)]
pub enum BinaryType {
    ADD,
    SUB,
    MUL,
    DIV,
    MAX,
    MOD,
    EQ,
    LT,
}

/// Reductions along a set of axes.
#[derive(Clone, Copy, Debug, PartialEq, Eq, Structural)]
pub enum ReduceType {
    SUM,
    MAX,
    MUL,
}

} // verus!
