//! The opcode bytes of the instruction set, one constant per instruction and
//! addressing mode.

use vstd::prelude::*;

pub mod custom;

verus! {


// ADC: add memory and carry to the accumulator.
pub const ADC_IMMEDIATE: u8 = 0x69;
pub const ADC_ZERO_PAGE: u8 = 0x65;
pub const ADC_ZERO_PAGE_X: u8 = 0x75;
pub const ADC_ABSOLUTE: u8 = 0x6D;
pub const ADC_ABSOLUTE_X: u8 = 0x7D;
pub const ADC_ABSOLUTE_Y: u8 = 0x79;
pub const ADC_INDIRECT_X: u8 = 0x61;
pub const ADC_INDIRECT_Y: u8 = 0x71;

// AND: bitwise and of memory with the accumulator.
pub const AND_IMMEDIATE: u8 = 0x29;
pub const AND_ZERO_PAGE: u8 = 0x25;
pub const AND_ZERO_PAGE_X: u8 = 0x35;
pub const AND_ABSOLUTE: u8 = 0x2D;
pub const AND_ABSOLUTE_X: u8 = 0x3D;
pub const AND_ABSOLUTE_Y: u8 = 0x39;
pub const AND_INDIRECT_X: u8 = 0x21;
pub const AND_INDIRECT_Y: u8 = 0x31;

// ASL: shift left by one bit.
pub const ASL_ACCUMULATOR: u8 = 0x0A;
pub const ASL_ZERO_PAGE: u8 = 0x06;
pub const ASL_ZERO_PAGE_X: u8 = 0x16;
pub const ASL_ABSOLUTE: u8 = 0x0E;
pub const ASL_ABSOLUTE_X: u8 = 0x1E;

// BCC: branch if carry is clear.
pub const BCC_RELATIVE: u8 = 0x90;

// BCS: branch if carry is set.
pub const BCS_RELATIVE: u8 = 0xB0;

// BEQ: branch if zero is set.
pub const BEQ_RELATIVE: u8 = 0xF0;

// BIT: test memory bits against the accumulator.
pub const BIT_ZERO_PAGE: u8 = 0x24;
pub const BIT_ABSOLUTE: u8 = 0x2C;

// BMI: branch if negative is set.
pub const BMI_RELATIVE: u8 = 0x30;

// BNE: branch if zero is clear.
pub const BNE_RELATIVE: u8 = 0xD0;

// BPL: branch if negative is clear.
pub const BPL_RELATIVE: u8 = 0x10;

// BRK: software interrupt.
pub const BRK_IMPLIED: u8 = 0x00;

// BVC: branch if overflow is clear.
pub const BVC_RELATIVE: u8 = 0x50;

// BVS: branch if overflow is set.
pub const BVS_RELATIVE: u8 = 0x70;

// CLC: clear carry.
pub const CLC_IMPLIED: u8 = 0x18;

// CLD: clear decimal mode.
pub const CLD_IMPLIED: u8 = 0xD8;

// CLI: clear interrupt disable.
pub const CLI_IMPLIED: u8 = 0x58;

// CLV: clear overflow.
pub const CLV_IMPLIED: u8 = 0xB8;

// CMP: compare memory with the accumulator.
pub const CMP_IMMEDIATE: u8 = 0xC9;
pub const CMP_ZERO_PAGE: u8 = 0xC5;
pub const CMP_ZERO_PAGE_X: u8 = 0xD5;
pub const CMP_ABSOLUTE: u8 = 0xCD;
pub const CMP_ABSOLUTE_X: u8 = 0xDD;
pub const CMP_ABSOLUTE_Y: u8 = 0xD9;
pub const CMP_INDIRECT_X: u8 = 0xC1;
pub const CMP_INDIRECT_Y: u8 = 0xD1;

// CPX: compare memory with X.
pub const CPX_IMMEDIATE: u8 = 0xE0;
pub const CPX_ZERO_PAGE: u8 = 0xE4;
pub const CPX_ABSOLUTE: u8 = 0xEC;

// CPY: compare memory with Y.
pub const CPY_IMMEDIATE: u8 = 0xC0;
pub const CPY_ZERO_PAGE: u8 = 0xC4;
pub const CPY_ABSOLUTE: u8 = 0xCC;

// DEC: decrement memory.
pub const DEC_ZERO_PAGE: u8 = 0xC6;
pub const DEC_ZERO_PAGE_X: u8 = 0xD6;
pub const DEC_ABSOLUTE: u8 = 0xCE;
pub const DEC_ABSOLUTE_X: u8 = 0xDE;

// DEX: decrement X.
pub const DEX_IMPLIED: u8 = 0xCA;

// DEY: decrement Y.
pub const DEY_IMPLIED: u8 = 0x88;

// EOR: bitwise exclusive or of memory with the accumulator.
pub const EOR_IMMEDIATE: u8 = 0x49;
pub const EOR_ZERO_PAGE: u8 = 0x45;
pub const EOR_ZERO_PAGE_X: u8 = 0x55;
pub const EOR_ABSOLUTE: u8 = 0x4D;
pub const EOR_ABSOLUTE_X: u8 = 0x5D;
pub const EOR_ABSOLUTE_Y: u8 = 0x59;
pub const EOR_INDIRECT_X: u8 = 0x41;
pub const EOR_INDIRECT_Y: u8 = 0x51;

// INC: increment memory.
pub const INC_ZERO_PAGE: u8 = 0xE6;
pub const INC_ZERO_PAGE_X: u8 = 0xF6;
pub const INC_ABSOLUTE: u8 = 0xEE;
pub const INC_ABSOLUTE_X: u8 = 0xFE;

// INX: increment X.
pub const INX_IMPLIED: u8 = 0xE8;

// INY: increment Y.
pub const INY_IMPLIED: u8 = 0xC8;

// JMP: jump.
pub const JMP_ABSOLUTE: u8 = 0x4C;
pub const JMP_INDIRECT: u8 = 0x6C;

// JSR: call a subroutine.
pub const JSR_ABSOLUTE: u8 = 0x20;

// LDA: load the accumulator.
pub const LDA_IMMEDIATE: u8 = 0xA9;
pub const LDA_ZERO_PAGE: u8 = 0xA5;
pub const LDA_ZERO_PAGE_X: u8 = 0xB5;
pub const LDA_ABSOLUTE: u8 = 0xAD;
pub const LDA_ABSOLUTE_X: u8 = 0xBD;
pub const LDA_ABSOLUTE_Y: u8 = 0xB9;
pub const LDA_INDIRECT_X: u8 = 0xA1;
pub const LDA_INDIRECT_Y: u8 = 0xB1;

// LDX: load X.
pub const LDX_IMMEDIATE: u8 = 0xA2;
pub const LDX_ZERO_PAGE: u8 = 0xA6;
pub const LDX_ZERO_PAGE_Y: u8 = 0xB6;
pub const LDX_ABSOLUTE: u8 = 0xAE;
pub const LDX_ABSOLUTE_Y: u8 = 0xBE;

// LDY: load Y.
pub const LDY_IMMEDIATE: u8 = 0xA0;
pub const LDY_ZERO_PAGE: u8 = 0xA4;
pub const LDY_ZERO_PAGE_X: u8 = 0xB4;
pub const LDY_ABSOLUTE: u8 = 0xAC;
pub const LDY_ABSOLUTE_X: u8 = 0xBC;

// LSR: shift right by one bit.
pub const LSR_ACCUMULATOR: u8 = 0x4A;
pub const LSR_ZERO_PAGE: u8 = 0x46;
pub const LSR_ZERO_PAGE_X: u8 = 0x56;
pub const LSR_ABSOLUTE: u8 = 0x4E;
pub const LSR_ABSOLUTE_X: u8 = 0x5E;

// NOP: do nothing.
pub const NOP_IMPLIED: u8 = 0xEA;

// ORA: bitwise or of memory with the accumulator.
pub const ORA_IMMEDIATE: u8 = 0x09;
pub const ORA_ZERO_PAGE: u8 = 0x05;
pub const ORA_ZERO_PAGE_X: u8 = 0x15;
pub const ORA_ABSOLUTE: u8 = 0x0D;
pub const ORA_ABSOLUTE_X: u8 = 0x1D;
pub const ORA_ABSOLUTE_Y: u8 = 0x19;
pub const ORA_INDIRECT_X: u8 = 0x01;
pub const ORA_INDIRECT_Y: u8 = 0x11;

// PHA: push the accumulator.
pub const PHA_IMPLIED: u8 = 0x48;

// PHP: push the status register.
pub const PHP_IMPLIED: u8 = 0x08;

// PLA: pull the accumulator.
pub const PLA_IMPLIED: u8 = 0x68;

// PLP: pull the status register.
pub const PLP_IMPLIED: u8 = 0x28;

// ROL: rotate left through carry.
pub const ROL_ACCUMULATOR: u8 = 0x2A;
pub const ROL_ZERO_PAGE: u8 = 0x26;
pub const ROL_ZERO_PAGE_X: u8 = 0x36;
pub const ROL_ABSOLUTE: u8 = 0x2E;
pub const ROL_ABSOLUTE_X: u8 = 0x3E;

// ROR: rotate right through carry.
pub const ROR_ACCUMULATOR: u8 = 0x6A;
pub const ROR_ZERO_PAGE: u8 = 0x66;
pub const ROR_ZERO_PAGE_X: u8 = 0x76;
pub const ROR_ABSOLUTE: u8 = 0x6E;
pub const ROR_ABSOLUTE_X: u8 = 0x7E;

// RTI: return from an interrupt.
pub const RTI_IMPLIED: u8 = 0x40;

// RTS: return from a subroutine.
pub const RTS_IMPLIED: u8 = 0x60;

// SBC: subtract memory and borrow from the accumulator.
pub const SBC_IMMEDIATE: u8 = 0xE9;
pub const SBC_ZERO_PAGE: u8 = 0xE5;
pub const SBC_ZERO_PAGE_X: u8 = 0xF5;
pub const SBC_ABSOLUTE: u8 = 0xED;
pub const SBC_ABSOLUTE_X: u8 = 0xFD;
pub const SBC_ABSOLUTE_Y: u8 = 0xF9;
pub const SBC_INDIRECT_X: u8 = 0xE1;
pub const SBC_INDIRECT_Y: u8 = 0xF1;

// SEC: set carry.
pub const SEC_IMPLIED: u8 = 0x38;

// SED: set decimal mode.
pub const SED_IMPLIED: u8 = 0xF8;

// SEI: set interrupt disable.
pub const SEI_IMPLIED: u8 = 0x78;

// STA: store the accumulator.
pub const STA_ZERO_PAGE: u8 = 0x85;
pub const STA_ZERO_PAGE_X: u8 = 0x95;
pub const STA_ABSOLUTE: u8 = 0x8D;
pub const STA_ABSOLUTE_X: u8 = 0x9D;
pub const STA_ABSOLUTE_Y: u8 = 0x99;
pub const STA_INDIRECT_X: u8 = 0x81;
pub const STA_INDIRECT_Y: u8 = 0x91;

// STX: store X.
pub const STX_ZERO_PAGE: u8 = 0x86;
pub const STX_ZERO_PAGE_Y: u8 = 0x96;
pub const STX_ABSOLUTE: u8 = 0x8E;

// STY: store Y.
pub const STY_ZERO_PAGE: u8 = 0x84;
pub const STY_ZERO_PAGE_X: u8 = 0x94;
pub const STY_ABSOLUTE: u8 = 0x8C;

// TAX: copy the accumulator to X.
pub const TAX_IMPLIED: u8 = 0xAA;

// TAY: copy the accumulator to Y.
pub const TAY_IMPLIED: u8 = 0xA8;

// TYA: copy Y to the accumulator.
pub const TYA_IMPLIED: u8 = 0x98;

// TSX: copy the stack pointer to X.
pub const TSX_IMPLIED: u8 = 0xBA;

// TXA: copy X to the accumulator.
pub const TXA_IMPLIED: u8 = 0x8A;

// TXS: copy X to the stack pointer.
pub const TXS_IMPLIED: u8 = 0x9A;

} // verus!
