//! The instruction set of the MCS 6502.

use vstd::prelude::*;
use crate::inst::mcs6502::addr::{addr_mode_of, get_addr_mode, instruction_len, pc_offset};
use crate::mems::{word_at, Readable};
use crate::util::{
    byte_of, char_byte, extract_indirect_target, hex_u16, hex_u8, indirect_target,
    is_valid_label_chars, push_hex_u16, push_hex_u8, push_str, string_of, strip_space_chars,
    to_chars,
    to_u16, two_digit_value, u16_to_number, valid_label, without_spaces, word_of,
};

pub mod addr;
pub mod ops;

verus! {

/// How an instruction finds its operand.
#[derive(Debug, PartialEq, Eq, Structural, Clone, Copy)]
pub enum AddressMode {
    /// No operand.
    Implied,
    /// The operand is the byte after the opcode.
    Immediate,
    /// The operand is in page zero, at the address after the opcode.
    ZeroPage,
    /// As `ZeroPage`, the address moved by X within page zero.
    ZeroPageX,
    /// As `ZeroPage`, the address moved by Y within page zero.
    ZeroPageY,
    /// The operand is at the 16-bit address after the opcode.
    Absolute,
    /// As `Absolute`, the address moved by X.
    AbsoluteX,
    /// As `Absolute`, the address moved by Y.
    AbsoluteY,
    /// The operand address is stored at the 16-bit address after the opcode.
    Indirect,
    /// The operand address is stored in page zero, at the byte after the
    /// opcode moved by X.
    IndirectX,
    /// The operand address is the one stored in page zero at the byte after
    /// the opcode, moved by Y.
    IndirectY,
    /// The byte after the opcode is a signed distance to branch over.
    Relative,
    /// The operand is the accumulator.
    Accumulator,
    /// Assembly only: an absolute address given by a label.
    Label,
    /// Assembly only: a label indexed by X.
    LabelX,
    /// Assembly only: a label indexed by Y.
    LabelY,
    /// Assembly only: an indirect address given by a label.
    ILabel,
    /// Assembly only: an indirect label indexed by X.
    ILabelX,
    /// Assembly only: an indirect label indexed by Y.
    ILabelY,
    /// The byte is no instruction.
    Undefined,
}

/// What an instruction does, whatever its addressing mode.
#[derive(Debug, PartialEq, Eq, Structural, Clone, Copy)]
pub enum Mnemonic {
    /// Add memory and carry to the accumulator.
    Adc,
    /// Bitwise and of memory with the accumulator.
    And,
    /// Shift left by one bit.
    Asl,
    /// Branch if carry is clear.
    Bcc,
    /// Branch if carry is set.
    Bcs,
    /// Branch if zero is set.
    Beq,
    /// Test memory bits against the accumulator.
    Bit,
    /// Branch if negative is set.
    Bmi,
    /// Branch if zero is clear.
    Bne,
    /// Branch if negative is clear.
    Bpl,
    /// Software interrupt.
    Brk,
    /// Branch if overflow is clear.
    Bvc,
    /// Branch if overflow is set.
    Bvs,
    /// Clear carry.
    Clc,
    /// Clear decimal mode.
    Cld,
    /// Clear interrupt disable.
    Cli,
    /// Clear overflow.
    Clv,
    /// Compare memory with the accumulator.
    Cmp,
    /// Compare memory with X.
    Cpx,
    /// Compare memory with Y.
    Cpy,
    /// Decrement memory.
    Dec,
    /// Decrement X.
    Dex,
    /// Decrement Y.
    Dey,
    /// Bitwise exclusive or of memory with the accumulator.
    Eor,
    /// Increment memory.
    Inc,
    /// Increment X.
    Inx,
    /// Increment Y.
    Iny,
    /// Jump.
    Jmp,
    /// Call a subroutine.
    Jsr,
    /// Load the accumulator.
    Lda,
    /// Load X.
    Ldx,
    /// Load Y.
    Ldy,
    /// Shift right by one bit.
    Lsr,
    /// Do nothing.
    Nop,
    /// Bitwise or of memory with the accumulator.
    Ora,
    /// Push the accumulator.
    Pha,
    /// Push the status register.
    Php,
    /// Pull the accumulator.
    Pla,
    /// Pull the status register.
    Plp,
    /// Rotate left through carry.
    Rol,
    /// Rotate right through carry.
    Ror,
    /// Return from an interrupt.
    Rti,
    /// Return from a subroutine.
    Rts,
    /// Subtract memory and borrow from the accumulator.
    Sbc,
    /// Set carry.
    Sec,
    /// Set decimal mode.
    Sed,
    /// Set interrupt disable.
    Sei,
    /// Store the accumulator.
    Sta,
    /// Store X.
    Stx,
    /// Store Y.
    Sty,
    /// Copy the accumulator to X.
    Tax,
    /// Copy the accumulator to Y.
    Tay,
    /// Copy Y to the accumulator.
    Tya,
    /// Copy the stack pointer to X.
    Tsx,
    /// Copy X to the accumulator.
    Txa,
    /// Copy X to the stack pointer.
    Txs,
    /// Marks a block of variable data.
    Var,
    /// Reserved; no processor executes it.
    Tos,
    /// Emit zero-terminated text.
    Prt,
}

/// The instruction that `opcode` encodes, if it encodes one.
pub open spec fn mnemonic_of(opcode: u8) -> Option<Mnemonic> {
    if opcode == ops::ADC_IMMEDIATE
        || opcode == ops::ADC_ZERO_PAGE
        || opcode == ops::ADC_ZERO_PAGE_X
        || opcode == ops::ADC_ABSOLUTE
        || opcode == ops::ADC_ABSOLUTE_X
        || opcode == ops::ADC_ABSOLUTE_Y
        || opcode == ops::ADC_INDIRECT_X
        || opcode == ops::ADC_INDIRECT_Y {
        Some(Mnemonic::Adc)
    } else if opcode == ops::AND_IMMEDIATE
        || opcode == ops::AND_ZERO_PAGE
        || opcode == ops::AND_ZERO_PAGE_X
        || opcode == ops::AND_ABSOLUTE
        || opcode == ops::AND_ABSOLUTE_X
        || opcode == ops::AND_ABSOLUTE_Y
        || opcode == ops::AND_INDIRECT_X
        || opcode == ops::AND_INDIRECT_Y {
        Some(Mnemonic::And)
    } else if opcode == ops::ASL_ACCUMULATOR
        || opcode == ops::ASL_ZERO_PAGE
        || opcode == ops::ASL_ZERO_PAGE_X
        || opcode == ops::ASL_ABSOLUTE
        || opcode == ops::ASL_ABSOLUTE_X {
        Some(Mnemonic::Asl)
    } else if opcode == ops::BCC_RELATIVE {
        Some(Mnemonic::Bcc)
    } else if opcode == ops::BCS_RELATIVE {
        Some(Mnemonic::Bcs)
    } else if opcode == ops::BEQ_RELATIVE {
        Some(Mnemonic::Beq)
    } else if opcode == ops::BIT_ZERO_PAGE
        || opcode == ops::BIT_ABSOLUTE {
        Some(Mnemonic::Bit)
    } else if opcode == ops::BMI_RELATIVE {
        Some(Mnemonic::Bmi)
    } else if opcode == ops::BNE_RELATIVE {
        Some(Mnemonic::Bne)
    } else if opcode == ops::BPL_RELATIVE {
        Some(Mnemonic::Bpl)
    } else if opcode == ops::BRK_IMPLIED {
        Some(Mnemonic::Brk)
    } else if opcode == ops::BVC_RELATIVE {
        Some(Mnemonic::Bvc)
    } else if opcode == ops::BVS_RELATIVE {
        Some(Mnemonic::Bvs)
    } else if opcode == ops::CLC_IMPLIED {
        Some(Mnemonic::Clc)
    } else if opcode == ops::CLD_IMPLIED {
        Some(Mnemonic::Cld)
    } else if opcode == ops::CLI_IMPLIED {
        Some(Mnemonic::Cli)
    } else if opcode == ops::CLV_IMPLIED {
        Some(Mnemonic::Clv)
    } else if opcode == ops::CMP_IMMEDIATE
        || opcode == ops::CMP_ZERO_PAGE
        || opcode == ops::CMP_ZERO_PAGE_X
        || opcode == ops::CMP_ABSOLUTE
        || opcode == ops::CMP_ABSOLUTE_X
        || opcode == ops::CMP_ABSOLUTE_Y
        || opcode == ops::CMP_INDIRECT_X
        || opcode == ops::CMP_INDIRECT_Y {
        Some(Mnemonic::Cmp)
    } else if opcode == ops::CPX_IMMEDIATE
        || opcode == ops::CPX_ZERO_PAGE
        || opcode == ops::CPX_ABSOLUTE {
        Some(Mnemonic::Cpx)
    } else if opcode == ops::CPY_IMMEDIATE
        || opcode == ops::CPY_ZERO_PAGE
        || opcode == ops::CPY_ABSOLUTE {
        Some(Mnemonic::Cpy)
    } else if opcode == ops::DEC_ZERO_PAGE
        || opcode == ops::DEC_ZERO_PAGE_X
        || opcode == ops::DEC_ABSOLUTE
        || opcode == ops::DEC_ABSOLUTE_X {
        Some(Mnemonic::Dec)
    } else if opcode == ops::DEX_IMPLIED {
        Some(Mnemonic::Dex)
    } else if opcode == ops::DEY_IMPLIED {
        Some(Mnemonic::Dey)
    } else if opcode == ops::EOR_IMMEDIATE
        || opcode == ops::EOR_ZERO_PAGE
        || opcode == ops::EOR_ZERO_PAGE_X
        || opcode == ops::EOR_ABSOLUTE
        || opcode == ops::EOR_ABSOLUTE_X
        || opcode == ops::EOR_ABSOLUTE_Y
        || opcode == ops::EOR_INDIRECT_X
        || opcode == ops::EOR_INDIRECT_Y {
        Some(Mnemonic::Eor)
    } else if opcode == ops::INC_ZERO_PAGE
        || opcode == ops::INC_ZERO_PAGE_X
        || opcode == ops::INC_ABSOLUTE
        || opcode == ops::INC_ABSOLUTE_X {
        Some(Mnemonic::Inc)
    } else if opcode == ops::INX_IMPLIED {
        Some(Mnemonic::Inx)
    } else if opcode == ops::INY_IMPLIED {
        Some(Mnemonic::Iny)
    } else if opcode == ops::JMP_ABSOLUTE
        || opcode == ops::JMP_INDIRECT {
        Some(Mnemonic::Jmp)
    } else if opcode == ops::JSR_ABSOLUTE {
        Some(Mnemonic::Jsr)
    } else if opcode == ops::LDA_IMMEDIATE
        || opcode == ops::LDA_ZERO_PAGE
        || opcode == ops::LDA_ZERO_PAGE_X
        || opcode == ops::LDA_ABSOLUTE
        || opcode == ops::LDA_ABSOLUTE_X
        || opcode == ops::LDA_ABSOLUTE_Y
        || opcode == ops::LDA_INDIRECT_X
        || opcode == ops::LDA_INDIRECT_Y {
        Some(Mnemonic::Lda)
    } else if opcode == ops::LDX_IMMEDIATE
        || opcode == ops::LDX_ZERO_PAGE
        || opcode == ops::LDX_ZERO_PAGE_Y
        || opcode == ops::LDX_ABSOLUTE
        || opcode == ops::LDX_ABSOLUTE_Y {
        Some(Mnemonic::Ldx)
    } else if opcode == ops::LDY_IMMEDIATE
        || opcode == ops::LDY_ZERO_PAGE
        || opcode == ops::LDY_ZERO_PAGE_X
        || opcode == ops::LDY_ABSOLUTE
        || opcode == ops::LDY_ABSOLUTE_X {
        Some(Mnemonic::Ldy)
    } else if opcode == ops::LSR_ACCUMULATOR
        || opcode == ops::LSR_ZERO_PAGE
        || opcode == ops::LSR_ZERO_PAGE_X
        || opcode == ops::LSR_ABSOLUTE
        || opcode == ops::LSR_ABSOLUTE_X {
        Some(Mnemonic::Lsr)
    } else if opcode == ops::NOP_IMPLIED {
        Some(Mnemonic::Nop)
    } else if opcode == ops::ORA_IMMEDIATE
        || opcode == ops::ORA_ZERO_PAGE
        || opcode == ops::ORA_ZERO_PAGE_X
        || opcode == ops::ORA_ABSOLUTE
        || opcode == ops::ORA_ABSOLUTE_X
        || opcode == ops::ORA_ABSOLUTE_Y
        || opcode == ops::ORA_INDIRECT_X
        || opcode == ops::ORA_INDIRECT_Y {
        Some(Mnemonic::Ora)
    } else if opcode == ops::PHA_IMPLIED {
        Some(Mnemonic::Pha)
    } else if opcode == ops::PHP_IMPLIED {
        Some(Mnemonic::Php)
    } else if opcode == ops::PLA_IMPLIED {
        Some(Mnemonic::Pla)
    } else if opcode == ops::PLP_IMPLIED {
        Some(Mnemonic::Plp)
    } else if opcode == ops::ROL_ACCUMULATOR
        || opcode == ops::ROL_ZERO_PAGE
        || opcode == ops::ROL_ZERO_PAGE_X
        || opcode == ops::ROL_ABSOLUTE
        || opcode == ops::ROL_ABSOLUTE_X {
        Some(Mnemonic::Rol)
    } else if opcode == ops::ROR_ACCUMULATOR
        || opcode == ops::ROR_ZERO_PAGE
        || opcode == ops::ROR_ZERO_PAGE_X
        || opcode == ops::ROR_ABSOLUTE
        || opcode == ops::ROR_ABSOLUTE_X {
        Some(Mnemonic::Ror)
    } else if opcode == ops::RTI_IMPLIED {
        Some(Mnemonic::Rti)
    } else if opcode == ops::RTS_IMPLIED {
        Some(Mnemonic::Rts)
    } else if opcode == ops::SBC_IMMEDIATE
        || opcode == ops::SBC_ZERO_PAGE
        || opcode == ops::SBC_ZERO_PAGE_X
        || opcode == ops::SBC_ABSOLUTE
        || opcode == ops::SBC_ABSOLUTE_X
        || opcode == ops::SBC_ABSOLUTE_Y
        || opcode == ops::SBC_INDIRECT_X
        || opcode == ops::SBC_INDIRECT_Y {
        Some(Mnemonic::Sbc)
    } else if opcode == ops::SEC_IMPLIED {
        Some(Mnemonic::Sec)
    } else if opcode == ops::SED_IMPLIED {
        Some(Mnemonic::Sed)
    } else if opcode == ops::SEI_IMPLIED {
        Some(Mnemonic::Sei)
    } else if opcode == ops::STA_ZERO_PAGE
        || opcode == ops::STA_ZERO_PAGE_X
        || opcode == ops::STA_ABSOLUTE
        || opcode == ops::STA_ABSOLUTE_X
        || opcode == ops::STA_ABSOLUTE_Y
        || opcode == ops::STA_INDIRECT_X
        || opcode == ops::STA_INDIRECT_Y {
        Some(Mnemonic::Sta)
    } else if opcode == ops::STX_ZERO_PAGE
        || opcode == ops::STX_ZERO_PAGE_Y
        || opcode == ops::STX_ABSOLUTE {
        Some(Mnemonic::Stx)
    } else if opcode == ops::STY_ZERO_PAGE
        || opcode == ops::STY_ZERO_PAGE_X
        || opcode == ops::STY_ABSOLUTE {
        Some(Mnemonic::Sty)
    } else if opcode == ops::TAX_IMPLIED {
        Some(Mnemonic::Tax)
    } else if opcode == ops::TAY_IMPLIED {
        Some(Mnemonic::Tay)
    } else if opcode == ops::TYA_IMPLIED {
        Some(Mnemonic::Tya)
    } else if opcode == ops::TSX_IMPLIED {
        Some(Mnemonic::Tsx)
    } else if opcode == ops::TXA_IMPLIED {
        Some(Mnemonic::Txa)
    } else if opcode == ops::TXS_IMPLIED {
        Some(Mnemonic::Txs)
    } else if opcode == ops::custom::VARIABLE {
        Some(Mnemonic::Var)
    } else if opcode == ops::custom::TOS_ABSOLUTE {
        Some(Mnemonic::Tos)
    } else if opcode == ops::custom::PRT_ABSOLUTE {
        Some(Mnemonic::Prt)
    } else {
        None
    }
}

/// Looks up the instruction that `opcode` encodes.
pub fn get_mnemonic(opcode: u8) -> (mnemonic: Option<Mnemonic>)
    ensures
        mnemonic == mnemonic_of(opcode),
{
    match opcode {
        ops::ADC_IMMEDIATE |
        ops::ADC_ZERO_PAGE |
        ops::ADC_ZERO_PAGE_X |
        ops::ADC_ABSOLUTE |
        ops::ADC_ABSOLUTE_X |
        ops::ADC_ABSOLUTE_Y |
        ops::ADC_INDIRECT_X |
        ops::ADC_INDIRECT_Y => Some(Mnemonic::Adc),
        ops::AND_IMMEDIATE |
        ops::AND_ZERO_PAGE |
        ops::AND_ZERO_PAGE_X |
        ops::AND_ABSOLUTE |
        ops::AND_ABSOLUTE_X |
        ops::AND_ABSOLUTE_Y |
        ops::AND_INDIRECT_X |
        ops::AND_INDIRECT_Y => Some(Mnemonic::And),
        ops::ASL_ACCUMULATOR |
        ops::ASL_ZERO_PAGE |
        ops::ASL_ZERO_PAGE_X |
        ops::ASL_ABSOLUTE |
        ops::ASL_ABSOLUTE_X => Some(Mnemonic::Asl),
        ops::BCC_RELATIVE => Some(Mnemonic::Bcc),
        ops::BCS_RELATIVE => Some(Mnemonic::Bcs),
        ops::BEQ_RELATIVE => Some(Mnemonic::Beq),
        ops::BIT_ZERO_PAGE |
        ops::BIT_ABSOLUTE => Some(Mnemonic::Bit),
        ops::BMI_RELATIVE => Some(Mnemonic::Bmi),
        ops::BNE_RELATIVE => Some(Mnemonic::Bne),
        ops::BPL_RELATIVE => Some(Mnemonic::Bpl),
        ops::BRK_IMPLIED => Some(Mnemonic::Brk),
        ops::BVC_RELATIVE => Some(Mnemonic::Bvc),
        ops::BVS_RELATIVE => Some(Mnemonic::Bvs),
        ops::CLC_IMPLIED => Some(Mnemonic::Clc),
        ops::CLD_IMPLIED => Some(Mnemonic::Cld),
        ops::CLI_IMPLIED => Some(Mnemonic::Cli),
        ops::CLV_IMPLIED => Some(Mnemonic::Clv),
        ops::CMP_IMMEDIATE |
        ops::CMP_ZERO_PAGE |
        ops::CMP_ZERO_PAGE_X |
        ops::CMP_ABSOLUTE |
        ops::CMP_ABSOLUTE_X |
        ops::CMP_ABSOLUTE_Y |
        ops::CMP_INDIRECT_X |
        ops::CMP_INDIRECT_Y => Some(Mnemonic::Cmp),
        ops::CPX_IMMEDIATE |
        ops::CPX_ZERO_PAGE |
        ops::CPX_ABSOLUTE => Some(Mnemonic::Cpx),
        ops::CPY_IMMEDIATE |
        ops::CPY_ZERO_PAGE |
        ops::CPY_ABSOLUTE => Some(Mnemonic::Cpy),
        ops::DEC_ZERO_PAGE |
        ops::DEC_ZERO_PAGE_X |
        ops::DEC_ABSOLUTE |
        ops::DEC_ABSOLUTE_X => Some(Mnemonic::Dec),
        ops::DEX_IMPLIED => Some(Mnemonic::Dex),
        ops::DEY_IMPLIED => Some(Mnemonic::Dey),
        ops::EOR_IMMEDIATE |
        ops::EOR_ZERO_PAGE |
        ops::EOR_ZERO_PAGE_X |
        ops::EOR_ABSOLUTE |
        ops::EOR_ABSOLUTE_X |
        ops::EOR_ABSOLUTE_Y |
        ops::EOR_INDIRECT_X |
        ops::EOR_INDIRECT_Y => Some(Mnemonic::Eor),
        ops::INC_ZERO_PAGE |
        ops::INC_ZERO_PAGE_X |
        ops::INC_ABSOLUTE |
        ops::INC_ABSOLUTE_X => Some(Mnemonic::Inc),
        ops::INX_IMPLIED => Some(Mnemonic::Inx),
        ops::INY_IMPLIED => Some(Mnemonic::Iny),
        ops::JMP_ABSOLUTE |
        ops::JMP_INDIRECT => Some(Mnemonic::Jmp),
        ops::JSR_ABSOLUTE => Some(Mnemonic::Jsr),
        ops::LDA_IMMEDIATE |
        ops::LDA_ZERO_PAGE |
        ops::LDA_ZERO_PAGE_X |
        ops::LDA_ABSOLUTE |
        ops::LDA_ABSOLUTE_X |
        ops::LDA_ABSOLUTE_Y |
        ops::LDA_INDIRECT_X |
        ops::LDA_INDIRECT_Y => Some(Mnemonic::Lda),
        ops::LDX_IMMEDIATE |
        ops::LDX_ZERO_PAGE |
        ops::LDX_ZERO_PAGE_Y |
        ops::LDX_ABSOLUTE |
        ops::LDX_ABSOLUTE_Y => Some(Mnemonic::Ldx),
        ops::LDY_IMMEDIATE |
        ops::LDY_ZERO_PAGE |
        ops::LDY_ZERO_PAGE_X |
        ops::LDY_ABSOLUTE |
        ops::LDY_ABSOLUTE_X => Some(Mnemonic::Ldy),
        ops::LSR_ACCUMULATOR |
        ops::LSR_ZERO_PAGE |
        ops::LSR_ZERO_PAGE_X |
        ops::LSR_ABSOLUTE |
        ops::LSR_ABSOLUTE_X => Some(Mnemonic::Lsr),
        ops::NOP_IMPLIED => Some(Mnemonic::Nop),
        ops::ORA_IMMEDIATE |
        ops::ORA_ZERO_PAGE |
        ops::ORA_ZERO_PAGE_X |
        ops::ORA_ABSOLUTE |
        ops::ORA_ABSOLUTE_X |
        ops::ORA_ABSOLUTE_Y |
        ops::ORA_INDIRECT_X |
        ops::ORA_INDIRECT_Y => Some(Mnemonic::Ora),
        ops::PHA_IMPLIED => Some(Mnemonic::Pha),
        ops::PHP_IMPLIED => Some(Mnemonic::Php),
        ops::PLA_IMPLIED => Some(Mnemonic::Pla),
        ops::PLP_IMPLIED => Some(Mnemonic::Plp),
        ops::ROL_ACCUMULATOR |
        ops::ROL_ZERO_PAGE |
        ops::ROL_ZERO_PAGE_X |
        ops::ROL_ABSOLUTE |
        ops::ROL_ABSOLUTE_X => Some(Mnemonic::Rol),
        ops::ROR_ACCUMULATOR |
        ops::ROR_ZERO_PAGE |
        ops::ROR_ZERO_PAGE_X |
        ops::ROR_ABSOLUTE |
        ops::ROR_ABSOLUTE_X => Some(Mnemonic::Ror),
        ops::RTI_IMPLIED => Some(Mnemonic::Rti),
        ops::RTS_IMPLIED => Some(Mnemonic::Rts),
        ops::SBC_IMMEDIATE |
        ops::SBC_ZERO_PAGE |
        ops::SBC_ZERO_PAGE_X |
        ops::SBC_ABSOLUTE |
        ops::SBC_ABSOLUTE_X |
        ops::SBC_ABSOLUTE_Y |
        ops::SBC_INDIRECT_X |
        ops::SBC_INDIRECT_Y => Some(Mnemonic::Sbc),
        ops::SEC_IMPLIED => Some(Mnemonic::Sec),
        ops::SED_IMPLIED => Some(Mnemonic::Sed),
        ops::SEI_IMPLIED => Some(Mnemonic::Sei),
        ops::STA_ZERO_PAGE |
        ops::STA_ZERO_PAGE_X |
        ops::STA_ABSOLUTE |
        ops::STA_ABSOLUTE_X |
        ops::STA_ABSOLUTE_Y |
        ops::STA_INDIRECT_X |
        ops::STA_INDIRECT_Y => Some(Mnemonic::Sta),
        ops::STX_ZERO_PAGE |
        ops::STX_ZERO_PAGE_Y |
        ops::STX_ABSOLUTE => Some(Mnemonic::Stx),
        ops::STY_ZERO_PAGE |
        ops::STY_ZERO_PAGE_X |
        ops::STY_ABSOLUTE => Some(Mnemonic::Sty),
        ops::TAX_IMPLIED => Some(Mnemonic::Tax),
        ops::TAY_IMPLIED => Some(Mnemonic::Tay),
        ops::TYA_IMPLIED => Some(Mnemonic::Tya),
        ops::TSX_IMPLIED => Some(Mnemonic::Tsx),
        ops::TXA_IMPLIED => Some(Mnemonic::Txa),
        ops::TXS_IMPLIED => Some(Mnemonic::Txs),
        ops::custom::VARIABLE => Some(Mnemonic::Var),
        ops::custom::TOS_ABSOLUTE => Some(Mnemonic::Tos),
        ops::custom::PRT_ABSOLUTE => Some(Mnemonic::Prt),
        _ => None,
    }
}

/// The three letters by which assembly text names `mnemonic`.
pub open spec fn mnemonic_text(mnemonic: Mnemonic) -> Seq<char> {
    match mnemonic {
        Mnemonic::Adc => seq!['A', 'D', 'C'],
        Mnemonic::And => seq!['A', 'N', 'D'],
        Mnemonic::Asl => seq!['A', 'S', 'L'],
        Mnemonic::Bcc => seq!['B', 'C', 'C'],
        Mnemonic::Bcs => seq!['B', 'C', 'S'],
        Mnemonic::Beq => seq!['B', 'E', 'Q'],
        Mnemonic::Bit => seq!['B', 'I', 'T'],
        Mnemonic::Bmi => seq!['B', 'M', 'I'],
        Mnemonic::Bne => seq!['B', 'N', 'E'],
        Mnemonic::Bpl => seq!['B', 'P', 'L'],
        Mnemonic::Brk => seq!['B', 'R', 'K'],
        Mnemonic::Bvc => seq!['B', 'V', 'C'],
        Mnemonic::Bvs => seq!['B', 'V', 'S'],
        Mnemonic::Clc => seq!['C', 'L', 'C'],
        Mnemonic::Cld => seq!['C', 'L', 'D'],
        Mnemonic::Cli => seq!['C', 'L', 'I'],
        Mnemonic::Clv => seq!['C', 'L', 'V'],
        Mnemonic::Cmp => seq!['C', 'M', 'P'],
        Mnemonic::Cpx => seq!['C', 'P', 'X'],
        Mnemonic::Cpy => seq!['C', 'P', 'Y'],
        Mnemonic::Dec => seq!['D', 'E', 'C'],
        Mnemonic::Dex => seq!['D', 'E', 'X'],
        Mnemonic::Dey => seq!['D', 'E', 'Y'],
        Mnemonic::Eor => seq!['E', 'O', 'R'],
        Mnemonic::Inc => seq!['I', 'N', 'C'],
        Mnemonic::Inx => seq!['I', 'N', 'X'],
        Mnemonic::Iny => seq!['I', 'N', 'Y'],
        Mnemonic::Jmp => seq!['J', 'M', 'P'],
        Mnemonic::Jsr => seq!['J', 'S', 'R'],
        Mnemonic::Lda => seq!['L', 'D', 'A'],
        Mnemonic::Ldx => seq!['L', 'D', 'X'],
        Mnemonic::Ldy => seq!['L', 'D', 'Y'],
        Mnemonic::Lsr => seq!['L', 'S', 'R'],
        Mnemonic::Nop => seq!['N', 'O', 'P'],
        Mnemonic::Ora => seq!['O', 'R', 'A'],
        Mnemonic::Pha => seq!['P', 'H', 'A'],
        Mnemonic::Php => seq!['P', 'H', 'P'],
        Mnemonic::Pla => seq!['P', 'L', 'A'],
        Mnemonic::Plp => seq!['P', 'L', 'P'],
        Mnemonic::Rol => seq!['R', 'O', 'L'],
        Mnemonic::Ror => seq!['R', 'O', 'R'],
        Mnemonic::Rti => seq!['R', 'T', 'I'],
        Mnemonic::Rts => seq!['R', 'T', 'S'],
        Mnemonic::Sbc => seq!['S', 'B', 'C'],
        Mnemonic::Sec => seq!['S', 'E', 'C'],
        Mnemonic::Sed => seq!['S', 'E', 'D'],
        Mnemonic::Sei => seq!['S', 'E', 'I'],
        Mnemonic::Sta => seq!['S', 'T', 'A'],
        Mnemonic::Stx => seq!['S', 'T', 'X'],
        Mnemonic::Sty => seq!['S', 'T', 'Y'],
        Mnemonic::Tax => seq!['T', 'A', 'X'],
        Mnemonic::Tay => seq!['T', 'A', 'Y'],
        Mnemonic::Tya => seq!['T', 'Y', 'A'],
        Mnemonic::Tsx => seq!['T', 'S', 'X'],
        Mnemonic::Txa => seq!['T', 'X', 'A'],
        Mnemonic::Txs => seq!['T', 'X', 'S'],
        Mnemonic::Var => seq!['V', 'A', 'R'],
        Mnemonic::Tos => seq!['T', 'O', 'S'],
        Mnemonic::Prt => seq!['P', 'R', 'T'],
    }
}

/// The three letters by which assembly text names `mnemonic`.
#[verifier::rlimit(30)]
pub fn mnemonic_name(mnemonic: Mnemonic) -> (name: &'static str)
    ensures
        name@ == mnemonic_text(mnemonic),
{
    match mnemonic {
        Mnemonic::Adc => {
            proof {
                reveal_strlit("ADC");
            }
            assert("ADC"@ =~= mnemonic_text(mnemonic));
            "ADC"
        },
        Mnemonic::And => {
            proof {
                reveal_strlit("AND");
            }
            assert("AND"@ =~= mnemonic_text(mnemonic));
            "AND"
        },
        Mnemonic::Asl => {
            proof {
                reveal_strlit("ASL");
            }
            assert("ASL"@ =~= mnemonic_text(mnemonic));
            "ASL"
        },
        Mnemonic::Bcc => {
            proof {
                reveal_strlit("BCC");
            }
            assert("BCC"@ =~= mnemonic_text(mnemonic));
            "BCC"
        },
        Mnemonic::Bcs => {
            proof {
                reveal_strlit("BCS");
            }
            assert("BCS"@ =~= mnemonic_text(mnemonic));
            "BCS"
        },
        Mnemonic::Beq => {
            proof {
                reveal_strlit("BEQ");
            }
            assert("BEQ"@ =~= mnemonic_text(mnemonic));
            "BEQ"
        },
        Mnemonic::Bit => {
            proof {
                reveal_strlit("BIT");
            }
            assert("BIT"@ =~= mnemonic_text(mnemonic));
            "BIT"
        },
        Mnemonic::Bmi => {
            proof {
                reveal_strlit("BMI");
            }
            assert("BMI"@ =~= mnemonic_text(mnemonic));
            "BMI"
        },
        Mnemonic::Bne => {
            proof {
                reveal_strlit("BNE");
            }
            assert("BNE"@ =~= mnemonic_text(mnemonic));
            "BNE"
        },
        Mnemonic::Bpl => {
            proof {
                reveal_strlit("BPL");
            }
            assert("BPL"@ =~= mnemonic_text(mnemonic));
            "BPL"
        },
        Mnemonic::Brk => {
            proof {
                reveal_strlit("BRK");
            }
            assert("BRK"@ =~= mnemonic_text(mnemonic));
            "BRK"
        },
        Mnemonic::Bvc => {
            proof {
                reveal_strlit("BVC");
            }
            assert("BVC"@ =~= mnemonic_text(mnemonic));
            "BVC"
        },
        Mnemonic::Bvs => {
            proof {
                reveal_strlit("BVS");
            }
            assert("BVS"@ =~= mnemonic_text(mnemonic));
            "BVS"
        },
        Mnemonic::Clc => {
            proof {
                reveal_strlit("CLC");
            }
            assert("CLC"@ =~= mnemonic_text(mnemonic));
            "CLC"
        },
        Mnemonic::Cld => {
            proof {
                reveal_strlit("CLD");
            }
            assert("CLD"@ =~= mnemonic_text(mnemonic));
            "CLD"
        },
        Mnemonic::Cli => {
            proof {
                reveal_strlit("CLI");
            }
            assert("CLI"@ =~= mnemonic_text(mnemonic));
            "CLI"
        },
        Mnemonic::Clv => {
            proof {
                reveal_strlit("CLV");
            }
            assert("CLV"@ =~= mnemonic_text(mnemonic));
            "CLV"
        },
        Mnemonic::Cmp => {
            proof {
                reveal_strlit("CMP");
            }
            assert("CMP"@ =~= mnemonic_text(mnemonic));
            "CMP"
        },
        Mnemonic::Cpx => {
            proof {
                reveal_strlit("CPX");
            }
            assert("CPX"@ =~= mnemonic_text(mnemonic));
            "CPX"
        },
        Mnemonic::Cpy => {
            proof {
                reveal_strlit("CPY");
            }
            assert("CPY"@ =~= mnemonic_text(mnemonic));
            "CPY"
        },
        Mnemonic::Dec => {
            proof {
                reveal_strlit("DEC");
            }
            assert("DEC"@ =~= mnemonic_text(mnemonic));
            "DEC"
        },
        Mnemonic::Dex => {
            proof {
                reveal_strlit("DEX");
            }
            assert("DEX"@ =~= mnemonic_text(mnemonic));
            "DEX"
        },
        Mnemonic::Dey => {
            proof {
                reveal_strlit("DEY");
            }
            assert("DEY"@ =~= mnemonic_text(mnemonic));
            "DEY"
        },
        Mnemonic::Eor => {
            proof {
                reveal_strlit("EOR");
            }
            assert("EOR"@ =~= mnemonic_text(mnemonic));
            "EOR"
        },
        Mnemonic::Inc => {
            proof {
                reveal_strlit("INC");
            }
            assert("INC"@ =~= mnemonic_text(mnemonic));
            "INC"
        },
        Mnemonic::Inx => {
            proof {
                reveal_strlit("INX");
            }
            assert("INX"@ =~= mnemonic_text(mnemonic));
            "INX"
        },
        Mnemonic::Iny => {
            proof {
                reveal_strlit("INY");
            }
            assert("INY"@ =~= mnemonic_text(mnemonic));
            "INY"
        },
        Mnemonic::Jmp => {
            proof {
                reveal_strlit("JMP");
            }
            assert("JMP"@ =~= mnemonic_text(mnemonic));
            "JMP"
        },
        Mnemonic::Jsr => {
            proof {
                reveal_strlit("JSR");
            }
            assert("JSR"@ =~= mnemonic_text(mnemonic));
            "JSR"
        },
        Mnemonic::Lda => {
            proof {
                reveal_strlit("LDA");
            }
            assert("LDA"@ =~= mnemonic_text(mnemonic));
            "LDA"
        },
        Mnemonic::Ldx => {
            proof {
                reveal_strlit("LDX");
            }
            assert("LDX"@ =~= mnemonic_text(mnemonic));
            "LDX"
        },
        Mnemonic::Ldy => {
            proof {
                reveal_strlit("LDY");
            }
            assert("LDY"@ =~= mnemonic_text(mnemonic));
            "LDY"
        },
        Mnemonic::Lsr => {
            proof {
                reveal_strlit("LSR");
            }
            assert("LSR"@ =~= mnemonic_text(mnemonic));
            "LSR"
        },
        Mnemonic::Nop => {
            proof {
                reveal_strlit("NOP");
            }
            assert("NOP"@ =~= mnemonic_text(mnemonic));
            "NOP"
        },
        Mnemonic::Ora => {
            proof {
                reveal_strlit("ORA");
            }
            assert("ORA"@ =~= mnemonic_text(mnemonic));
            "ORA"
        },
        Mnemonic::Pha => {
            proof {
                reveal_strlit("PHA");
            }
            assert("PHA"@ =~= mnemonic_text(mnemonic));
            "PHA"
        },
        Mnemonic::Php => {
            proof {
                reveal_strlit("PHP");
            }
            assert("PHP"@ =~= mnemonic_text(mnemonic));
            "PHP"
        },
        Mnemonic::Pla => {
            proof {
                reveal_strlit("PLA");
            }
            assert("PLA"@ =~= mnemonic_text(mnemonic));
            "PLA"
        },
        Mnemonic::Plp => {
            proof {
                reveal_strlit("PLP");
            }
            assert("PLP"@ =~= mnemonic_text(mnemonic));
            "PLP"
        },
        Mnemonic::Rol => {
            proof {
                reveal_strlit("ROL");
            }
            assert("ROL"@ =~= mnemonic_text(mnemonic));
            "ROL"
        },
        Mnemonic::Ror => {
            proof {
                reveal_strlit("ROR");
            }
            assert("ROR"@ =~= mnemonic_text(mnemonic));
            "ROR"
        },
        Mnemonic::Rti => {
            proof {
                reveal_strlit("RTI");
            }
            assert("RTI"@ =~= mnemonic_text(mnemonic));
            "RTI"
        },
        Mnemonic::Rts => {
            proof {
                reveal_strlit("RTS");
            }
            assert("RTS"@ =~= mnemonic_text(mnemonic));
            "RTS"
        },
        Mnemonic::Sbc => {
            proof {
                reveal_strlit("SBC");
            }
            assert("SBC"@ =~= mnemonic_text(mnemonic));
            "SBC"
        },
        Mnemonic::Sec => {
            proof {
                reveal_strlit("SEC");
            }
            assert("SEC"@ =~= mnemonic_text(mnemonic));
            "SEC"
        },
        Mnemonic::Sed => {
            proof {
                reveal_strlit("SED");
            }
            assert("SED"@ =~= mnemonic_text(mnemonic));
            "SED"
        },
        Mnemonic::Sei => {
            proof {
                reveal_strlit("SEI");
            }
            assert("SEI"@ =~= mnemonic_text(mnemonic));
            "SEI"
        },
        Mnemonic::Sta => {
            proof {
                reveal_strlit("STA");
            }
            assert("STA"@ =~= mnemonic_text(mnemonic));
            "STA"
        },
        Mnemonic::Stx => {
            proof {
                reveal_strlit("STX");
            }
            assert("STX"@ =~= mnemonic_text(mnemonic));
            "STX"
        },
        Mnemonic::Sty => {
            proof {
                reveal_strlit("STY");
            }
            assert("STY"@ =~= mnemonic_text(mnemonic));
            "STY"
        },
        Mnemonic::Tax => {
            proof {
                reveal_strlit("TAX");
            }
            assert("TAX"@ =~= mnemonic_text(mnemonic));
            "TAX"
        },
        Mnemonic::Tay => {
            proof {
                reveal_strlit("TAY");
            }
            assert("TAY"@ =~= mnemonic_text(mnemonic));
            "TAY"
        },
        Mnemonic::Tya => {
            proof {
                reveal_strlit("TYA");
            }
            assert("TYA"@ =~= mnemonic_text(mnemonic));
            "TYA"
        },
        Mnemonic::Tsx => {
            proof {
                reveal_strlit("TSX");
            }
            assert("TSX"@ =~= mnemonic_text(mnemonic));
            "TSX"
        },
        Mnemonic::Txa => {
            proof {
                reveal_strlit("TXA");
            }
            assert("TXA"@ =~= mnemonic_text(mnemonic));
            "TXA"
        },
        Mnemonic::Txs => {
            proof {
                reveal_strlit("TXS");
            }
            assert("TXS"@ =~= mnemonic_text(mnemonic));
            "TXS"
        },
        Mnemonic::Var => {
            proof {
                reveal_strlit("VAR");
            }
            assert("VAR"@ =~= mnemonic_text(mnemonic));
            "VAR"
        },
        Mnemonic::Tos => {
            proof {
                reveal_strlit("TOS");
            }
            assert("TOS"@ =~= mnemonic_text(mnemonic));
            "TOS"
        },
        Mnemonic::Prt => {
            proof {
                reveal_strlit("PRT");
            }
            assert("PRT"@ =~= mnemonic_text(mnemonic));
            "PRT"
        },
    }
}

/// Whether `name` is the name of an instruction.
pub open spec fn instruction_name(name: Seq<char>) -> bool {
    exists|mnemonic: Mnemonic| name == mnemonic_text(mnemonic)
}

/// The instruction that assembly text calls `name`, if there is one.
pub fn find_mnemonic(name: &str) -> (found: Option<Mnemonic>)
    ensures
        match found {
            Some(mnemonic) => name@ == mnemonic_text(mnemonic),
            None => !instruction_name(name@),
        },
{
    let chars = to_chars(name);
    find_mnemonic_chars(chars.as_slice())
}

/// The instruction that assembly text calls by the characters `name`, if
/// there is one.
#[verifier::rlimit(30)]
pub fn find_mnemonic_chars(name: &[char]) -> (found: Option<Mnemonic>)
    ensures
        match found {
            Some(mnemonic) => name@ == mnemonic_text(mnemonic),
            None => !instruction_name(name@),
        },
{
    if name.len() != 3 {
        return None;
    }
    let found = match (name[0], name[1], name[2]) {
        ('A', 'D', 'C') => Some(Mnemonic::Adc),
        ('A', 'N', 'D') => Some(Mnemonic::And),
        ('A', 'S', 'L') => Some(Mnemonic::Asl),
        ('B', 'C', 'C') => Some(Mnemonic::Bcc),
        ('B', 'C', 'S') => Some(Mnemonic::Bcs),
        ('B', 'E', 'Q') => Some(Mnemonic::Beq),
        ('B', 'I', 'T') => Some(Mnemonic::Bit),
        ('B', 'M', 'I') => Some(Mnemonic::Bmi),
        ('B', 'N', 'E') => Some(Mnemonic::Bne),
        ('B', 'P', 'L') => Some(Mnemonic::Bpl),
        ('B', 'R', 'K') => Some(Mnemonic::Brk),
        ('B', 'V', 'C') => Some(Mnemonic::Bvc),
        ('B', 'V', 'S') => Some(Mnemonic::Bvs),
        ('C', 'L', 'C') => Some(Mnemonic::Clc),
        ('C', 'L', 'D') => Some(Mnemonic::Cld),
        ('C', 'L', 'I') => Some(Mnemonic::Cli),
        ('C', 'L', 'V') => Some(Mnemonic::Clv),
        ('C', 'M', 'P') => Some(Mnemonic::Cmp),
        ('C', 'P', 'X') => Some(Mnemonic::Cpx),
        ('C', 'P', 'Y') => Some(Mnemonic::Cpy),
        ('D', 'E', 'C') => Some(Mnemonic::Dec),
        ('D', 'E', 'X') => Some(Mnemonic::Dex),
        ('D', 'E', 'Y') => Some(Mnemonic::Dey),
        ('E', 'O', 'R') => Some(Mnemonic::Eor),
        ('I', 'N', 'C') => Some(Mnemonic::Inc),
        ('I', 'N', 'X') => Some(Mnemonic::Inx),
        ('I', 'N', 'Y') => Some(Mnemonic::Iny),
        ('J', 'M', 'P') => Some(Mnemonic::Jmp),
        ('J', 'S', 'R') => Some(Mnemonic::Jsr),
        ('L', 'D', 'A') => Some(Mnemonic::Lda),
        ('L', 'D', 'X') => Some(Mnemonic::Ldx),
        ('L', 'D', 'Y') => Some(Mnemonic::Ldy),
        ('L', 'S', 'R') => Some(Mnemonic::Lsr),
        ('N', 'O', 'P') => Some(Mnemonic::Nop),
        ('O', 'R', 'A') => Some(Mnemonic::Ora),
        ('P', 'H', 'A') => Some(Mnemonic::Pha),
        ('P', 'H', 'P') => Some(Mnemonic::Php),
        ('P', 'L', 'A') => Some(Mnemonic::Pla),
        ('P', 'L', 'P') => Some(Mnemonic::Plp),
        ('R', 'O', 'L') => Some(Mnemonic::Rol),
        ('R', 'O', 'R') => Some(Mnemonic::Ror),
        ('R', 'T', 'I') => Some(Mnemonic::Rti),
        ('R', 'T', 'S') => Some(Mnemonic::Rts),
        ('S', 'B', 'C') => Some(Mnemonic::Sbc),
        ('S', 'E', 'C') => Some(Mnemonic::Sec),
        ('S', 'E', 'D') => Some(Mnemonic::Sed),
        ('S', 'E', 'I') => Some(Mnemonic::Sei),
        ('S', 'T', 'A') => Some(Mnemonic::Sta),
        ('S', 'T', 'X') => Some(Mnemonic::Stx),
        ('S', 'T', 'Y') => Some(Mnemonic::Sty),
        ('T', 'A', 'X') => Some(Mnemonic::Tax),
        ('T', 'A', 'Y') => Some(Mnemonic::Tay),
        ('T', 'Y', 'A') => Some(Mnemonic::Tya),
        ('T', 'S', 'X') => Some(Mnemonic::Tsx),
        ('T', 'X', 'A') => Some(Mnemonic::Txa),
        ('T', 'X', 'S') => Some(Mnemonic::Txs),
        ('V', 'A', 'R') => Some(Mnemonic::Var),
        ('T', 'O', 'S') => Some(Mnemonic::Tos),
        ('P', 'R', 'T') => Some(Mnemonic::Prt),
        _ => None,
    };
    proof {
        match found {
            Some(mnemonic) => {
                assert(name@ =~= mnemonic_text(mnemonic));
            },
            None => {
                assert forall|mnemonic: Mnemonic| name@ != mnemonic_text(mnemonic) by {
                    let text = mnemonic_text(mnemonic);
                    assert(text[0] == text[0] && text[1] == text[1] && text[2] == text[2]);
                }
            },
        }
    }
    found
}

/// Whether `op` is the name of an instruction, written in capitals.
pub fn is_valid_instruction(op: &str) -> (yes: bool)
    ensures
        yes == instruction_name(op@),
{
    find_mnemonic(op).is_some()
}

/// Whether `label` can name a place in a program: a label of valid shape
/// that is not the name of an instruction. With `decl`, a declaration may
/// end in a colon.
pub fn is_valid_label(label: &str, decl: bool) -> (valid: bool)
    ensures
        valid == (!instruction_name(label@) && valid_label(label@, decl)),
{
    !is_valid_instruction(label) && crate::util::is_valid_label(label, decl)
}

/// The name of the instruction that `opcode` encodes.
pub open spec fn op_text(opcode: u8) -> Seq<char> {
    match mnemonic_of(opcode) {
        Some(mnemonic) => mnemonic_text(mnemonic),
        None => seq!['U', 'N', 'K', 'N', 'O', 'W', 'N'],
    }
}

/// The name of the instruction that `opcode` encodes; `UNKNOWN` for a
/// byte that encodes none.
pub fn op_name(opcode: u8) -> (name: String)
    ensures
        name@ == op_text(opcode),
{
    match get_mnemonic(opcode) {
        Some(mnemonic) => String::from_str(mnemonic_name(mnemonic)),
        None => {
            proof {
                reveal_strlit("UNKNOWN");
            }
            assert("UNKNOWN"@ =~= op_text(opcode));
            String::from_str("UNKNOWN")
        },
    }
}

/// Whether the operand of `op` may be a label to jump to: `op` is the
/// absolute jump or the call.
pub open spec fn jumps_to_label(op: u8) -> bool {
    addr_mode_of(op) == AddressMode::Absolute && (mnemonic_of(op) == Some(Mnemonic::Jmp)
        || mnemonic_of(op) == Some(Mnemonic::Jsr))
}

/// Whether the operand of `op` may be a label to branch to: `op` is a
/// branch.
pub open spec fn branches_to_label(op: u8) -> bool {
    addr_mode_of(op) == AddressMode::Relative
}

/// Whether the operand of `op` may be the name of a variable: `op`
/// addresses memory absolutely or indirectly and is neither the absolute
/// jump nor the call.
pub open spec fn uses_variables(op: u8) -> bool {
    !jumps_to_label(op) && (addr_mode_of(op) == AddressMode::Absolute || addr_mode_of(op)
        == AddressMode::AbsoluteX || addr_mode_of(op) == AddressMode::AbsoluteY || addr_mode_of(op)
        == AddressMode::Indirect || addr_mode_of(op) == AddressMode::IndirectX || addr_mode_of(op)
        == AddressMode::IndirectY)
}

/// Whether the operand of `op` may be a label to jump to: `op` is the
/// absolute jump or the call.
pub fn can_jump_to_label(op: u8) -> (yes: bool)
    ensures
        yes == jumps_to_label(op),
{
    op == ops::JMP_ABSOLUTE || op == ops::JSR_ABSOLUTE
}

/// Whether the operand of `op` may be a label to branch to: `op` is a
/// branch.
pub fn can_branch_to_label(op: u8) -> (yes: bool)
    ensures
        yes == branches_to_label(op),
{
    match get_addr_mode(op) {
        AddressMode::Relative => true,
        _ => false,
    }
}

/// Whether the operand of `op` may be the name of a variable: `op`
/// addresses memory absolutely or indirectly and is neither the absolute
/// jump nor the call.
#[verifier::rlimit(30)]
pub fn can_use_variables(op: u8) -> (yes: bool)
    ensures
        yes == uses_variables(op),
{
    if can_jump_to_label(op) {
        return false;
    }
    match get_addr_mode(op) {
        AddressMode::Absolute
        | AddressMode::AbsoluteX
        | AddressMode::AbsoluteY
        | AddressMode::Indirect
        | AddressMode::IndirectX
        | AddressMode::IndirectY => true,
        _ => false,
    }
}

/// The number that the operand text `chars` holds from position `off` on,
/// read as two digits: hexadecimal after a `$`, else decimal. Each
/// character counts by the lowest eight bits of its code point.
pub open spec fn operand_u8(chars: Seq<char>, off: int) -> Option<u16> {
    if chars.len() >= off + 3 && chars[off] == '$' {
        two_digit_value(word_of(byte_of(chars[off + 2]), byte_of(chars[off + 1])), 16)
    } else if chars.len() >= off + 2 {
        two_digit_value(word_of(byte_of(chars[off + 1]), byte_of(chars[off])), 10)
    } else {
        None
    }
}

/// The number that the operand text `chars` holds from position `off` on,
/// read as four digits where there are four, hexadecimal after a `$`,
/// else decimal; as two digits where there are only two.
pub open spec fn operand_u16(chars: Seq<char>, off: int) -> Option<u16> {
    if chars.len() >= off + 5 && chars[off] == '$' {
        match (
            two_digit_value(word_of(byte_of(chars[off + 2]), byte_of(chars[off + 1])), 16),
            two_digit_value(word_of(byte_of(chars[off + 4]), byte_of(chars[off + 3])), 16),
        ) {
            (Some(upper), Some(lower)) => Some((upper * 0x100 + lower) as u16),
            _ => None,
        }
    } else if chars.len() >= off + 4 {
        match (
            two_digit_value(word_of(byte_of(chars[off + 1]), byte_of(chars[off])), 10),
            two_digit_value(word_of(byte_of(chars[off + 3]), byte_of(chars[off + 2])), 10),
        ) {
            (Some(upper), Some(lower)) => Some((upper * 100 + lower) as u16),
            _ => None,
        }
    } else {
        operand_u8(chars, off)
    }
}

/// Reads a two-digit operand from `chars` at `off`: `$` and two
/// hexadecimal digits, or two decimal digits.
pub fn extract_operand_u8(chars: &[char], off: u8) -> (value: Option<u16>)
    ensures
        value == operand_u8(chars@, off as int),
        value matches Some(v) ==> v < 0x100,
{
    let mut off = off as usize;
    let base: u8;
    if chars.len() >= 3 && off <= chars.len() - 3 && chars[off] == '$' {
        off += 1;
        base = 16;
    } else if chars.len() >= 2 && off <= chars.len() - 2 {
        base = 10;
    } else {
        return None;
    }
    let digit1 = char_byte(chars[off]);
    let digit2 = char_byte(chars[off + 1]);
    u16_to_number(to_u16(digit1, digit2), base)
}

/// Reads a four-digit operand from `chars` at `off`: `$` and four
/// hexadecimal digits, or four decimal digits. Where fewer than four
/// characters are left, reads a two-digit operand.
pub fn extract_operand_u16(chars: &[char], off: u8) -> (value: Option<u16>)
    ensures
        value == operand_u16(chars@, off as int),
{
    let start = off;
    let mut off = off as usize;
    let base: u8;
    if chars.len() >= 5 && off <= chars.len() - 5 && chars[off] == '$' {
        off += 1;
        base = 16;
    } else if chars.len() >= 4 && off <= chars.len() - 4 {
        base = 10;
    } else {
        return extract_operand_u8(chars, start);
    }
    let res1 = u16_to_number(to_u16(char_byte(chars[off]), char_byte(chars[off + 1])), base);
    let res2 = u16_to_number(to_u16(char_byte(chars[off + 2]), char_byte(chars[off + 3])), base);
    match (res1, res2) {
        (Some(upper), Some(lower)) => {
            if base == 16 {
                Some(upper * 0x100 + lower)
            } else {
                Some(upper * 100 + lower)
            }
        },
        _ => None,
    }
}

/// Whether `mnemonic` is one of the eight branches.
pub open spec fn is_branch(mnemonic: Mnemonic) -> bool {
    match mnemonic {
        Mnemonic::Bcc
        | Mnemonic::Bcs
        | Mnemonic::Beq
        | Mnemonic::Bmi
        | Mnemonic::Bne
        | Mnemonic::Bpl
        | Mnemonic::Bvc
        | Mnemonic::Bvs => true,
        _ => false,
    }
}

/// The addressing mode in which `mnemonic` is encoded when assembly text
/// gives it an operand of mode `mode`: a label stands for an address of
/// the same kind, and for a branch it stands for a relative distance.
pub open spec fn encoded_mode(mnemonic: Mnemonic, mode: AddressMode) -> AddressMode {
    match mode {
        AddressMode::Label => if is_branch(mnemonic) {
            AddressMode::Relative
        } else {
            AddressMode::Absolute
        },
        AddressMode::LabelX => AddressMode::AbsoluteX,
        AddressMode::LabelY => AddressMode::AbsoluteY,
        AddressMode::ILabel => AddressMode::Indirect,
        AddressMode::ILabelX => AddressMode::IndirectX,
        AddressMode::ILabelY => AddressMode::IndirectY,
        _ => mode,
    }
}

/// Whether `opcode` is the encoding of `mnemonic` with an operand of mode
/// `mode`.
pub open spec fn encodes(opcode: u8, mnemonic: Mnemonic, mode: AddressMode) -> bool {
    mnemonic_of(opcode) == Some(mnemonic) && addr_mode_of(opcode) == encoded_mode(mnemonic, mode)
        && encoded_mode(mnemonic, mode) != AddressMode::Undefined
}

/// Whether the instruction named `op` has an encoding with an operand of
/// mode `mode`.
pub open spec fn encodable(op: Seq<char>, mode: AddressMode) -> bool {
    exists|opcode: u8, mnemonic: Mnemonic|
        op == mnemonic_text(mnemonic) && encodes(opcode, mnemonic, mode)
}

/// Whether `opcode` encodes the instruction named `op` with an operand of
/// mode `mode`.
pub open spec fn is_opcode_for(opcode: u8, op: Seq<char>, mode: AddressMode) -> bool {
    exists|mnemonic: Mnemonic| op == mnemonic_text(mnemonic) && encodes(opcode, mnemonic, mode)
}

/// The opcode of the instruction named `op` with an operand of mode
/// `mode`, if the instruction has such an encoding.
pub open spec fn opcode_for(op: Seq<char>, mode: AddressMode) -> Option<u8> {
    if encodable(op, mode) {
        Some(choose|opcode: u8| is_opcode_for(opcode, op, mode))
    } else {
        None
    }
}

/// The opcode of a name and a mode is the only one that encodes them.
#[verifier::rlimit(30)]
pub proof fn lemma_opcode_for(op: Seq<char>, mode: AddressMode, opcode: u8, mnemonic: Mnemonic)
    requires
        op == mnemonic_text(mnemonic),
        encodes(opcode, mnemonic, mode),
    ensures
        opcode_for(op, mode) == Some(opcode),
{
    assert(is_opcode_for(opcode, op, mode));
    let chosen = opcode_for(op, mode)->Some_0;
    assert(is_opcode_for(chosen, op, mode));
    let other = choose|other: Mnemonic| op == mnemonic_text(other) && encodes(chosen, other, mode);
    lemma_mnemonic_text_injective(mnemonic, other);
    lemma_encoding_unique(opcode, chosen, mnemonic, mode);
}

/// No two instructions share a name.
#[verifier::rlimit(30)]
pub proof fn lemma_mnemonic_text_injective(a: Mnemonic, b: Mnemonic)
    requires
        mnemonic_text(a) == mnemonic_text(b),
    ensures
        a == b,
{
    let ta = mnemonic_text(a);
    let tb = mnemonic_text(b);
    assert(ta[0] == tb[0] && ta[1] == tb[1] && ta[2] == tb[2]);
}

/// An instruction and a mode of its operand have at most one encoding.
#[verifier::rlimit(30)]
pub proof fn lemma_encoding_unique(a: u8, b: u8, mnemonic: Mnemonic, mode: AddressMode)
    requires
        encodes(a, mnemonic, mode),
        encodes(b, mnemonic, mode),
    ensures
        a == b,
{
}

/// The two opcode tables agree: a byte has an addressing mode exactly if
/// it encodes an instruction.
#[verifier::rlimit(30)]
pub proof fn lemma_mode_defined_iff_instruction(opcode: u8)
    ensures
        mnemonic_of(opcode) is Some <==> addr_mode_of(opcode) != AddressMode::Undefined,
{
}

/// The branches are the instructions with a relative operand.
#[verifier::rlimit(30)]
pub proof fn lemma_branches_are_relative(opcode: u8)
    ensures
        addr_mode_of(opcode) == AddressMode::Relative <==> (mnemonic_of(opcode) matches Some(
            mnemonic,
        ) && is_branch(mnemonic)),
{
}

/// No opcode is decoded to a mode that only assembly text has.
pub proof fn lemma_decoded_modes_are_hardware_modes(opcode: u8)
    ensures
        encoded_mode(Mnemonic::Nop, addr_mode_of(opcode)) == addr_mode_of(opcode),
{
}

/// The mode in which `mnemonic` is encoded for an operand of mode `mode`.
fn resolve_mode(mnemonic: Mnemonic, mode: AddressMode) -> (resolved: AddressMode)
    ensures
        resolved == encoded_mode(mnemonic, mode),
{
    match mode {
        AddressMode::Label => match mnemonic {
            Mnemonic::Bcc
            | Mnemonic::Bcs
            | Mnemonic::Beq
            | Mnemonic::Bmi
            | Mnemonic::Bne
            | Mnemonic::Bpl
            | Mnemonic::Bvc
            | Mnemonic::Bvs => AddressMode::Relative,
            _ => AddressMode::Absolute,
        },
        AddressMode::LabelX => AddressMode::AbsoluteX,
        AddressMode::LabelY => AddressMode::AbsoluteY,
        AddressMode::ILabel => AddressMode::Indirect,
        AddressMode::ILabelX => AddressMode::IndirectX,
        AddressMode::ILabelY => AddressMode::IndirectY,
        _ => mode,
    }
}

/// Whether `opcode` encodes `mnemonic` in mode `resolved`.
fn is_encoding(opcode: u8, mnemonic: Mnemonic, resolved: AddressMode) -> (yes: bool)
    ensures
        yes == (mnemonic_of(opcode) == Some(mnemonic) && addr_mode_of(opcode) == resolved),
{
    match get_mnemonic(opcode) {
        Some(found) => found == mnemonic && get_addr_mode(opcode) == resolved,
        None => false,
    }
}

/// Looks for the opcode of the instruction named `op` with an operand of
/// mode `mode`. The search goes through the opcode tables, so assembling
/// and decoding cannot disagree.
pub fn find_opcode(op: &str, mode: &AddressMode) -> (found: Option<u8>)
    ensures
        found == opcode_for(op@, *mode),
        match found {
            Some(opcode) => exists|mnemonic: Mnemonic|
                op@ == mnemonic_text(mnemonic) && encodes(opcode, mnemonic, *mode),
            None => !encodable(op@, *mode),
        },
{
    let chars = to_chars(op);
    find_opcode_chars(chars.as_slice(), mode)
}

/// Looks for the opcode of the instruction named by the characters `op`
/// with an operand of mode `mode`.
#[verifier::rlimit(30)]
pub fn find_opcode_chars(op: &[char], mode: &AddressMode) -> (found: Option<u8>)
    ensures
        found == opcode_for(op@, *mode),
        match found {
            Some(opcode) => exists|mnemonic: Mnemonic|
                op@ == mnemonic_text(mnemonic) && encodes(opcode, mnemonic, *mode),
            None => !encodable(op@, *mode),
        },
{
    let mnemonic = match find_mnemonic_chars(op) {
        Some(mnemonic) => mnemonic,
        None => {
            return None;
        },
    };
    let resolved = resolve_mode(mnemonic, *mode);
    if resolved == AddressMode::Undefined {
        assert forall|opcode: u8, other: Mnemonic|
            !(op@ == mnemonic_text(other) && encodes(opcode, other, *mode)) by {
            if op@ == mnemonic_text(other) {
                lemma_mnemonic_text_injective(mnemonic, other);
            }
        }
        return None;
    }
    let mut opcode: u8 = 0;
    loop
        invariant
            op@ == mnemonic_text(mnemonic),
            resolved == encoded_mode(mnemonic, *mode),
            resolved != AddressMode::Undefined,
            forall|k: u8| k < opcode ==> !encodes(k, mnemonic, *mode),
        decreases 0x100 - opcode,
    {
        if is_encoding(opcode, mnemonic, resolved) {
            proof {
                lemma_opcode_for(op@, *mode, opcode, mnemonic);
            }
            return Some(opcode);
        }
        if opcode == 0xFF {
            assert forall|k: u8, other: Mnemonic|
                !(op@ == mnemonic_text(other) && encodes(k, other, *mode)) by {
                if op@ == mnemonic_text(other) {
                    lemma_mnemonic_text_injective(mnemonic, other);
                }
            }
            return None;
        }
        opcode += 1;
    }
}

/// The opcode of the instruction named `op` with an operand of mode
/// `mode`.
pub fn name_mode_to_opcode(op: &str, mode: &AddressMode) -> (opcode: u8)
    requires
        encodable(op@, *mode),
    ensures
        opcode_for(op@, *mode) == Some(opcode),
        exists|mnemonic: Mnemonic|
            op@ == mnemonic_text(mnemonic) && encodes(opcode, mnemonic, *mode),
{
    match find_opcode(op, mode) {
        Some(opcode) => opcode,
        None => 0,
    }
}

/// Whether `text` can name a place in a program where it is used: a label
/// of valid shape that is not the name of an instruction.
pub open spec fn is_label(text: Seq<char>) -> bool {
    !instruction_name(text) && valid_label(text, false)
}

/// Whether the characters `text` can name a place in a program where it
/// is used.
pub fn is_label_chars(text: &[char]) -> (yes: bool)
    ensures
        yes == is_label(text@),
{
    find_mnemonic_chars(text).is_none() && is_valid_label_chars(text, false)
}

/// The operand text `chars`, which starts with `(`, with the comma before
/// a closing `X)` turned into `)`, so that what the parentheses hold ends
/// there.
pub open spec fn indirect_chars(chars: Seq<char>) -> Seq<char> {
    let size = chars.len() as int;
    if size >= 3 && chars[size - 1] == ')' && chars[size - 2] == 'X' {
        chars.update(size - 3, ')')
    } else {
        chars
    }
}

/// The mode of the indirect operand `chars`, which starts with `(`: by
/// what follows the address, and by whether the address is a label.
pub open spec fn indirect_mode(chars: Seq<char>, label: bool) -> AddressMode {
    let size = chars.len() as int;
    if size >= 2 && chars[size - 1] == ')' {
        if chars[size - 2] == 'X' {
            if label {
                AddressMode::ILabelX
            } else {
                AddressMode::IndirectX
            }
        } else {
            if label {
                AddressMode::ILabel
            } else {
                AddressMode::Indirect
            }
        }
    } else if chars[size - 1] == 'Y' {
        if label {
            AddressMode::ILabelY
        } else {
            AddressMode::IndirectY
        }
    } else {
        AddressMode::Undefined
    }
}

/// The operand text `chars`, which ends in `X` or `Y`, without that index
/// and without a comma before it.
pub open spec fn indexed_label(chars: Seq<char>) -> Seq<char> {
    let size = chars.len() as int;
    if size >= 2 && chars[size - 2] == ',' {
        chars.take(size - 2)
    } else {
        chars.take(size - 1)
    }
}

/// `mode`, unless the operand text ends in an index register: then the
/// indexed mode `with_x` or `with_y`.
pub open spec fn indexed_mode(
    chars: Seq<char>,
    mode: AddressMode,
    with_x: AddressMode,
    with_y: AddressMode,
) -> AddressMode {
    if chars.last() == 'X' {
        with_x
    } else if chars.last() == 'Y' {
        with_y
    } else {
        mode
    }
}

/// What an operand means that is no label with an index or in
/// parentheses. `written` is the operand as written, `chars` the same
/// without spaces, not empty.
pub open spec fn plain_operand(written: Seq<char>, chars: Seq<char>) -> (AddressMode, u16) {
    let size = chars.len();
    if size == 1 && chars[0] == 'A' {
        (AddressMode::Accumulator, 0)
    } else if is_label(written) {
        (AddressMode::Label, 0)
    } else if chars[0] == '#' {
        match operand_u8(chars, 1) {
            Some(value) => (AddressMode::Immediate, value),
            None => (AddressMode::Undefined, 0),
        }
    } else if chars[0] == '*' {
        let (mode, value) = if size > 2 {
            match operand_u8(chars, 1) {
                Some(value) => (AddressMode::ZeroPage, value),
                None => (AddressMode::Undefined, 0u16),
            }
        } else {
            (AddressMode::Undefined, 0u16)
        };
        (indexed_mode(chars, mode, AddressMode::ZeroPageX, AddressMode::ZeroPageY), value)
    } else if chars[0] == '(' {
        let target = indirect_target(indirect_chars(chars));
        if target.len() > 1 {
            match operand_u8(target, 0) {
                Some(value) => (indirect_mode(chars, false), value),
                None => (AddressMode::Undefined, 0),
            }
        } else {
            (indirect_mode(chars, false), 0)
        }
    } else if size > 2 {
        let (mode, value) = match operand_u16(chars, 0) {
            Some(value) => (AddressMode::Absolute, value),
            None => (AddressMode::Undefined, 0u16),
        };
        (indexed_mode(chars, mode, AddressMode::AbsoluteX, AddressMode::AbsoluteY), value)
    } else {
        (AddressMode::Undefined, 0)
    }
}

/// What the operand text `written` means: its addressing mode and its
/// number. Spaces do not count. No operand is the implied mode; an
/// address in parentheses or before an index may be a label, and a label
/// has the number 0; text that is no operand has the mode `Undefined`.
pub open spec fn parsed_arguments(written: Seq<char>) -> (AddressMode, u16) {
    let chars = without_spaces(written);
    let size = chars.len() as int;
    if size == 0 {
        (AddressMode::Implied, 0)
    } else if chars[0] == '(' && is_label(indirect_target(indirect_chars(chars))) {
        (indirect_mode(chars, true), 0)
    } else if chars[size - 1] == 'X' && is_label(indexed_label(chars)) {
        (AddressMode::LabelX, 0)
    } else if chars[size - 1] == 'Y' && is_label(indexed_label(chars)) {
        (AddressMode::LabelY, 0)
    } else {
        plain_operand(written, chars)
    }
}

/// The mode of the indirect operand `chars`, which starts with `(`.
fn get_indirect_mode(chars: &Vec<char>, label: bool) -> (mode: AddressMode)
    requires
        chars@.len() > 0,
    ensures
        mode == indirect_mode(chars@, label),
{
    let size = chars.len();
    if size >= 2 && chars[size - 1] == ')' {
        if chars[size - 2] == 'X' {
            if label {
                AddressMode::ILabelX
            } else {
                AddressMode::IndirectX
            }
        } else {
            if label {
                AddressMode::ILabel
            } else {
                AddressMode::Indirect
            }
        }
    } else if chars[size - 1] == 'Y' {
        if label {
            AddressMode::ILabelY
        } else {
            AddressMode::IndirectY
        }
    } else {
        AddressMode::Undefined
    }
}

/// What the parentheses of the indirect operand `chars` hold.
fn get_indirect_target(chars: &Vec<char>) -> (target: Vec<char>)
    requires
        chars@.len() > 0,
    ensures
        target@ == indirect_target(indirect_chars(chars@)),
{
    let size = chars.len();
    if size >= 3 && chars[size - 1] == ')' && chars[size - 2] == 'X' {
        let mut closed = chars.clone();
        closed.set(size - 3, ')');
        extract_indirect_target(closed.as_slice())
    } else {
        extract_indirect_target(chars.as_slice())
    }
}

/// The operand `chars`, which ends in `X` or `Y`, without that index and
/// without a comma before it.
fn get_indexed_label(chars: &Vec<char>) -> (label: Vec<char>)
    requires
        chars@.len() > 0,
    ensures
        label@ == indexed_label(chars@),
{
    let size = chars.len();
    let mut label = chars.clone();
    label.pop();
    if size >= 2 && label[size - 2] == ',' {
        label.pop();
    }
    assert(label@ =~= indexed_label(chars@));
    label
}

/// `mode`, unless `chars` ends in an index register.
fn get_indexed_mode(
    chars: &Vec<char>,
    mode: AddressMode,
    with_x: AddressMode,
    with_y: AddressMode,
) -> (indexed: AddressMode)
    requires
        chars@.len() > 0,
    ensures
        indexed == indexed_mode(chars@, mode, with_x, with_y),
{
    let last = chars[chars.len() - 1];
    if last == 'X' {
        with_x
    } else if last == 'Y' {
        with_y
    } else {
        mode
    }
}

/// Reads an operand that is no label with an index or in parentheses.
#[verifier::rlimit(30)]
fn parse_plain_operand(written: &[char], chars: &Vec<char>) -> (parsed: (AddressMode, u16))
    requires
        chars@.len() > 0,
    ensures
        parsed == plain_operand(written@, chars@),
{
    let size = chars.len();
    if size == 1 && chars[0] == 'A' {
        (AddressMode::Accumulator, 0)
    } else if is_label_chars(written) {
        (AddressMode::Label, 0)
    } else if chars[0] == '#' {
        match extract_operand_u8(chars.as_slice(), 1) {
            Some(value) => (AddressMode::Immediate, value),
            None => (AddressMode::Undefined, 0),
        }
    } else if chars[0] == '*' {
        let mut mode = AddressMode::Undefined;
        let mut operand = 0u16;
        if size > 2 {
            match extract_operand_u8(chars.as_slice(), 1) {
                Some(value) => {
                    mode = AddressMode::ZeroPage;
                    operand = value;
                },
                None => {},
            }
        }
        (get_indexed_mode(chars, mode, AddressMode::ZeroPageX, AddressMode::ZeroPageY), operand)
    } else if chars[0] == '(' {
        let mode = get_indirect_mode(chars, false);
        let target = get_indirect_target(chars);
        if target.len() > 1 {
            match extract_operand_u8(target.as_slice(), 0) {
                Some(value) => (mode, value),
                None => (AddressMode::Undefined, 0),
            }
        } else {
            (mode, 0)
        }
    } else if size > 2 {
        let mut mode = AddressMode::Undefined;
        let mut operand = 0u16;
        match extract_operand_u16(chars.as_slice(), 0) {
            Some(value) => {
                mode = AddressMode::Absolute;
                operand = value;
            },
            None => {},
        }
        (get_indexed_mode(chars, mode, AddressMode::AbsoluteX, AddressMode::AbsoluteY), operand)
    } else {
        (AddressMode::Undefined, 0)
    }
}

/// Reads the operand text of an instruction: its addressing mode and its
/// number.
pub fn parse_arguments(arguments: &str) -> (parsed: (AddressMode, u16))
    ensures
        parsed == parsed_arguments(arguments@),
{
    let written = to_chars(arguments);
    parse_argument_chars(written.as_slice())
}

/// Reads the operand text of an instruction, given as characters: its
/// addressing mode and its number.
pub fn parse_argument_chars(arguments: &[char]) -> (parsed: (AddressMode, u16))
    ensures
        parsed == parsed_arguments(arguments@),
{
    let chars = strip_space_chars(arguments);
    let size = chars.len();
    if size == 0 {
        return (AddressMode::Implied, 0u16);
    }
    if chars[0] == '(' {
        let target = get_indirect_target(&chars);
        if is_label_chars(target.as_slice()) {
            return (get_indirect_mode(&chars, true), 0u16);
        }
    }
    if chars[size - 1] == 'X' || chars[size - 1] == 'Y' {
        let label = get_indexed_label(&chars);
        if is_label_chars(label.as_slice()) {
            if chars[size - 1] == 'X' {
                return (AddressMode::LabelX, 0u16);
            } else {
                return (AddressMode::LabelY, 0u16);
            }
        }
    }
    parse_plain_operand(arguments, &chars)
}

/// How assembly text writes an operand of mode `mode`, whose byte is `op8`
/// and whose word is `op16`. Numbers are hexadecimal behind a `$`; a page
/// zero address is marked by `*`. A mode without an operand has no text.
pub open spec fn operand_text(mode: AddressMode, op8: u8, op16: u16) -> Seq<char> {
    match mode {
        AddressMode::Immediate => seq!['#', '$'] + hex_u8(op8),
        AddressMode::Absolute => seq!['$'] + hex_u16(op16),
        AddressMode::ZeroPage => seq!['*', '$'] + hex_u8(op8),
        AddressMode::AbsoluteX => seq!['$'] + hex_u16(op16) + seq![',', ' ', 'X'],
        AddressMode::ZeroPageX => seq!['*', '$'] + hex_u8(op8) + seq![',', ' ', 'X'],
        AddressMode::AbsoluteY => seq!['$'] + hex_u16(op16) + seq![',', ' ', 'Y'],
        AddressMode::ZeroPageY => seq!['*', '$'] + hex_u8(op8) + seq![',', ' ', 'Y'],
        AddressMode::Indirect => seq!['(', '$'] + hex_u16(op16) + seq![')'],
        AddressMode::IndirectX => seq!['(', '$'] + hex_u8(op8) + seq![',', ' ', 'X', ')'],
        AddressMode::IndirectY => seq!['(', '$'] + hex_u8(op8) + seq![')', ',', ' ', 'Y'],
        AddressMode::Relative => seq!['$'] + hex_u8(op8),
        AddressMode::Accumulator => seq!['A'],
        _ => Seq::empty(),
    }
}

/// The characters of the operand text of mode `mode`.
fn operand_chars(mode: &AddressMode, op8: u8, op16: u16) -> (text: Vec<char>)
    ensures
        text@ == operand_text(*mode, op8, op16),
{
    let mut text: Vec<char> = Vec::new();
    match *mode {
        AddressMode::Immediate => {
            text.push('#');
            text.push('$');
            push_hex_u8(&mut text, op8);
        },
        AddressMode::Absolute => {
            text.push('$');
            push_hex_u16(&mut text, op16);
        },
        AddressMode::ZeroPage => {
            text.push('*');
            text.push('$');
            push_hex_u8(&mut text, op8);
        },
        AddressMode::AbsoluteX => {
            text.push('$');
            push_hex_u16(&mut text, op16);
            text.push(',');
            text.push(' ');
            text.push('X');
        },
        AddressMode::ZeroPageX => {
            text.push('*');
            text.push('$');
            push_hex_u8(&mut text, op8);
            text.push(',');
            text.push(' ');
            text.push('X');
        },
        AddressMode::AbsoluteY => {
            text.push('$');
            push_hex_u16(&mut text, op16);
            text.push(',');
            text.push(' ');
            text.push('Y');
        },
        AddressMode::ZeroPageY => {
            text.push('*');
            text.push('$');
            push_hex_u8(&mut text, op8);
            text.push(',');
            text.push(' ');
            text.push('Y');
        },
        AddressMode::Indirect => {
            text.push('(');
            text.push('$');
            push_hex_u16(&mut text, op16);
            text.push(')');
        },
        AddressMode::IndirectX => {
            text.push('(');
            text.push('$');
            push_hex_u8(&mut text, op8);
            text.push(',');
            text.push(' ');
            text.push('X');
            text.push(')');
        },
        AddressMode::IndirectY => {
            text.push('(');
            text.push('$');
            push_hex_u8(&mut text, op8);
            text.push(')');
            text.push(',');
            text.push(' ');
            text.push('Y');
        },
        AddressMode::Relative => {
            text.push('$');
            push_hex_u8(&mut text, op8);
        },
        AddressMode::Accumulator => {
            text.push('A');
        },
        _ => {},
    }
    assert(text@ =~= operand_text(*mode, op8, op16));
    text
}

/// Writes an operand of mode `mode` as assembly text writes it; `op8` is
/// the operand byte, `op16` the operand word.
pub fn addr_mode_to_operand(mode: &AddressMode, op8: u8, op16: u16) -> (text: String)
    ensures
        text@ == operand_text(*mode, op8, op16),
{
    let chars = operand_chars(mode, op8, op16);
    string_of(&chars)
}

/// The operand byte of the instruction at `idx`: the byte after the
/// opcode, or 0 where the image ends before it.
pub open spec fn operand_byte_at(bytes: Seq<u8>, idx: int) -> u8 {
    if idx + 1 < bytes.len() {
        bytes[idx + 1]
    } else {
        0
    }
}

/// The operand word of the instruction at `idx`: the little-endian word
/// after the opcode, or 0 where the image ends before its second byte.
pub open spec fn operand_word_at(bytes: Seq<u8>, idx: int) -> u16 {
    if idx + 2 < bytes.len() {
        word_at(bytes, idx + 1)
    } else {
        0
    }
}

/// The instruction at `idx` as assembly text: its name and, where it has
/// one, a space and its operand.
pub open spec fn instruction_text(bytes: Seq<u8>, idx: int) -> Seq<char> {
    let opcode = bytes[idx];
    let arg = operand_text(
        addr_mode_of(opcode),
        operand_byte_at(bytes, idx),
        operand_word_at(bytes, idx),
    );
    if arg.len() == 0 {
        op_text(opcode)
    } else {
        op_text(opcode) + seq![' '] + arg
    }
}

/// Writes the instruction at `idx` of `cart` as assembly text.
fn instruction_chars<C: Readable>(cart: &C, idx: usize) -> (text: Vec<char>)
    requires
        idx < cart@.len(),
    ensures
        text@ == instruction_text(cart@, idx as int),
{
    let size = cart.size();
    let opcode = cart.read_u8(idx);
    let operand_u8 = if size - idx > 1 {
        cart.read_u8(idx + 1)
    } else {
        0
    };
    let operand_u16 = if size - idx > 2 {
        cart.read_u16(idx + 1)
    } else {
        0
    };
    let addr_mode = get_addr_mode(opcode);
    let arg = operand_chars(&addr_mode, operand_u8, operand_u16);
    let mut text: Vec<char> = Vec::new();
    let name = match get_mnemonic(opcode) {
        Some(mnemonic) => mnemonic_name(mnemonic),
        None => {
            proof {
                reveal_strlit("UNKNOWN");
            }
            assert("UNKNOWN"@ =~= op_text(opcode));
            "UNKNOWN"
        },
    };
    push_str(&mut text, name);
    if arg.len() > 0 {
        text.push(' ');
        let mut arg = arg;
        text.append(&mut arg);
    }
    assert(text@ =~= instruction_text(cart@, idx as int));
    text
}

/// Writes the instruction at `*idx` of `cart` as assembly text and moves
/// `*idx` past it.
pub fn op_to_str<C: Readable>(cart: &C, idx: &mut usize) -> (text: String)
    requires
        *old(idx) < cart@.len(),
    ensures
        text@ == instruction_text(cart@, *old(idx) as int),
        ({
            let next = *old(idx) + instruction_len(addr_mode_of(cart@[*old(idx) as int]));
            *final(idx) == if next > usize::MAX {
                next - usize::MAX - 1
            } else {
                next
            }
        }),
{
    let chars = instruction_chars(cart, *idx);
    let opcode = cart.read_u8(*idx);
    let off = pc_offset(&get_addr_mode(opcode));
    *idx = idx.wrapping_add(off);
    string_of(&chars)
}

/// The number of data bytes that the variable marker at `idx` announces;
/// 0 for any other byte.
pub open spec fn data_len_at(bytes: Seq<u8>, idx: int) -> int {
    if bytes[idx] == ops::custom::VARIABLE && idx + 1 < bytes.len() {
        bytes[idx + 1] as int
    } else {
        0
    }
}

/// Where the line after the one at `idx` starts: past the instruction and
/// past the data that a variable marker announces.
pub open spec fn next_line(bytes: Seq<u8>, idx: int) -> int {
    idx + instruction_len(addr_mode_of(bytes[idx])) + data_len_at(bytes, idx)
}

/// The listing of `bytes` from `idx` on: line by line the address of an
/// instruction and its text.
pub open spec fn listing(bytes: Seq<u8>, idx: int) -> Seq<(int, Seq<char>)>
    decreases bytes.len() - idx,
{
    if idx < 0 || idx >= bytes.len() {
        Seq::empty()
    } else {
        let next = next_line(bytes, idx);
        let rest = if idx < next < bytes.len() {
            listing(bytes, next)
        } else {
            Seq::empty()
        };
        seq![(idx, instruction_text(bytes, idx))] + rest
    }
}

/// Every line of a listing is at least one byte long.
pub proof fn lemma_next_line_is_later(bytes: Seq<u8>, idx: int)
    ensures
        next_line(bytes, idx) > idx,
{
}

/// Whether `lines` are the lines `expected`.
pub open spec fn lines_are(lines: Seq<(usize, String)>, expected: Seq<(int, Seq<char>)>) -> bool {
    &&& lines.len() == expected.len()
    &&& forall|i: int|
        0 <= i < lines.len() ==> (#[trigger] lines[i]).0 == expected[i].0 && lines[i].1@
            == expected[i].1
}

/// Disassembles the image `rom`: for each instruction its address and its
/// text, in address order. The data of a variable is passed over.
#[verifier::rlimit(30)]
pub fn disassemble<C: Readable>(rom: &C) -> (lines: Vec<(usize, String)>)
    ensures
        lines_are(lines@, listing(rom@, 0)),
{
    let size = rom.size();
    let mut lines: Vec<(usize, String)> = Vec::new();
    let mut idx: usize = 0;
    let ghost mut done: Seq<(int, Seq<char>)> = Seq::empty();
    while idx < size
        invariant
            size == rom@.len(),
            lines_are(lines@, done),
            done + listing(rom@, idx as int) =~= listing(rom@, 0),
        decreases size - idx,
    {
        let opcode = rom.read_u8(idx);
        let mut step: usize = pc_offset(&get_addr_mode(opcode));
        if opcode == ops::custom::VARIABLE && size - idx > 1 {
            let count = rom.read_u8(idx + 1);
            step = step + count as usize;
        }
        let chars = instruction_chars(rom, idx);
        let text = string_of(&chars);
        proof {
            lemma_next_line_is_later(rom@, idx as int);
            let line = (idx as int, instruction_text(rom@, idx as int));
            assert(listing(rom@, idx as int) =~= seq![line] + listing(
                rom@,
                next_line(rom@, idx as int),
            ));
            done = done.push(line);
        }
        lines.push((idx, text));
        if step >= size - idx {
            assert(listing(rom@, next_line(rom@, idx as int)) =~= Seq::empty());
            idx = size;
        } else {
            idx = idx + step;
        }
    }
    assert(listing(rom@, idx as int) =~= Seq::empty());
    lines
}

} // verus!
