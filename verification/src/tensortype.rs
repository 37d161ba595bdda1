//! Element datatypes a tensor's buffer can hold.
use vstd::prelude::*;

verus! {

/// The element datatypes of tensor storage.
#[derive(Clone, Copy, Debug, PartialEq, Eq, Structural)]
pub enum TensorType {
    I32,
    U32,
    F32,
    F16,
}

impl TensorType {
    /// Bytes per element.
    pub fn byte_size(&self) -> (r: usize)
        ensures
            r == match *self {
                TensorType::F16 => 2int,
                _ => 4int,
            },
    {
        match self {
            TensorType::I32 => 4,
            TensorType::U32 => 4,
            TensorType::F32 => 4,
            TensorType::F16 => 2,
        }
    }

    /// The common type two operands agree on: their own type when equal,
    /// 32-bit float otherwise.
    pub fn agreeable_type(self, other: TensorType) -> (r: TensorType)
        ensures
            self == other ==> r == self,
            self != other ==> r == TensorType::F32,
    {
        if self == other {
            self
        } else {
            TensorType::F32
        }
    }
}

} // verus!
