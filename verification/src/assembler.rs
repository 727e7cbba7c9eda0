//! What assembling a program needs to know of its data.

use vstd::prelude::*;

pub mod mcs6502;

verus! {

/// The size of a variable that a program declares.
#[derive(Debug, PartialEq, Eq, Structural, Clone, Copy)]
pub enum VariableSize {
    /// One byte.
    Byte,
    /// Two bytes, the low byte first.
    Word,
}

impl VariableSize {
    /// The number of bytes that a variable of this size occupies.
    pub open spec fn byte_count(&self) -> int {
        match *self {
            VariableSize::Byte => 1,
            VariableSize::Word => 2,
        }
    }

    /// The number of bytes that a variable of this size occupies.
    pub fn bytes(&self) -> (n: u8)
        ensures
            n == self.byte_count(),
    {
        match *self {
            VariableSize::Byte => 1,
            VariableSize::Word => 2,
        }
    }
}

} // verus!
