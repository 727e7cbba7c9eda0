//! Opcode bytes that the real processor leaves undefined and that this
//! tool chain gives a meaning of its own.

use vstd::prelude::*;

verus! {

/// Marks a block of variable data in an assembled image; the next byte is
/// the number of data bytes that follow it.
pub const VARIABLE: u8 = 0xFB;

/// Reserved for storing to the top of the stack; it has no handler.
pub const TOS_ABSOLUTE: u8 = 0xFC;

/// Emits the zero-terminated text at an absolute address.
pub const PRT_ABSOLUTE: u8 = 0xFF;

} // verus!
