//! Instruction sets.

pub mod mcs6502;
