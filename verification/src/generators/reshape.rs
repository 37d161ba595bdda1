//! The reshape kernel: an elementwise copy. The dense output index is
//! remapped through the input's strides, so a contiguous input is copied
//! verbatim into the new shape.
use vstd::prelude::*;

use crate::ops::UnaryType;

verus! {

/// The reshape kernel is the unary identity kernel: a guarded strided copy.
pub open spec fn spec_build_shader() -> Seq<char> {
    crate::generators::unary::spec_build_shader(UnaryType::IDENTITY)
}

/// Emit the reshape kernel.
pub fn build_shader() -> (r: String)
    ensures
        r@ == spec_build_shader(),
{
    crate::generators::unary::build_shader(UnaryType::IDENTITY)
}

} // verus!
