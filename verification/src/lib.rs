//! An emulator of the MOS 6502 family with its tools.
//!
//! * `mems`: byte-addressable memory, readable and writable.
//! * `inst`: the instruction set: opcodes, addressing modes, the text of
//!   operands and instructions.
//! * `cpus`: the execution engine, its model as mathematics and the laws
//!   that hold of it.
//! * `assembler`: the macro preprocessor and the assembler.
//! * `lang`: a lexer and a parser that are driven by rules, for a
//!   language of its own.
//! * `text` and `util`: characters, words, digits, bytes, and a small
//!   lexer.

pub mod assembler;
pub mod cpus;
pub mod inst;
pub mod lang;
pub mod mems;
pub mod text;
pub mod util;
