//! The addressing-mode table: which mode an opcode byte uses and how many
//! bytes an instruction of that mode occupies.

use vstd::prelude::*;
use crate::inst::mcs6502::ops;
use crate::inst::mcs6502::AddressMode;

verus! {

/// The number of bytes, opcode included, of an instruction in `mode`.
pub open spec fn instruction_len(mode: AddressMode) -> int {
    match mode {
        AddressMode::Label
        | AddressMode::LabelX
        | AddressMode::LabelY
        | AddressMode::ILabel
        | AddressMode::Absolute
        | AddressMode::AbsoluteX
        | AddressMode::AbsoluteY
        | AddressMode::Indirect => 3,
        AddressMode::Implied | AddressMode::Undefined => 1,
        _ => 2,
    }
}

/// The addressing mode that the instruction set gives to `opcode`;
/// `AddressMode::Undefined` for a byte that is no instruction.
pub open spec fn addr_mode_of(opcode: u8) -> AddressMode {
    if opcode == ops::ADC_IMMEDIATE
        || opcode == ops::AND_IMMEDIATE
        || opcode == ops::CMP_IMMEDIATE
        || opcode == ops::CPX_IMMEDIATE
        || opcode == ops::CPY_IMMEDIATE
        || opcode == ops::EOR_IMMEDIATE
        || opcode == ops::LDA_IMMEDIATE
        || opcode == ops::LDX_IMMEDIATE
        || opcode == ops::LDY_IMMEDIATE
        || opcode == ops::ORA_IMMEDIATE
        || opcode == ops::SBC_IMMEDIATE {
        AddressMode::Immediate
    } else if opcode == ops::ADC_ZERO_PAGE
        || opcode == ops::AND_ZERO_PAGE
        || opcode == ops::ASL_ZERO_PAGE
        || opcode == ops::BIT_ZERO_PAGE
        || opcode == ops::CMP_ZERO_PAGE
        || opcode == ops::CPX_ZERO_PAGE
        || opcode == ops::CPY_ZERO_PAGE
        || opcode == ops::DEC_ZERO_PAGE
        || opcode == ops::EOR_ZERO_PAGE
        || opcode == ops::INC_ZERO_PAGE
        || opcode == ops::LDA_ZERO_PAGE
        || opcode == ops::LDX_ZERO_PAGE
        || opcode == ops::LDY_ZERO_PAGE
        || opcode == ops::LSR_ZERO_PAGE
        || opcode == ops::ORA_ZERO_PAGE
        || opcode == ops::ROL_ZERO_PAGE
        || opcode == ops::ROR_ZERO_PAGE
        || opcode == ops::SBC_ZERO_PAGE
        || opcode == ops::STA_ZERO_PAGE
        || opcode == ops::STX_ZERO_PAGE
        || opcode == ops::STY_ZERO_PAGE {
        AddressMode::ZeroPage
    } else if opcode == ops::ADC_ZERO_PAGE_X
        || opcode == ops::AND_ZERO_PAGE_X
        || opcode == ops::ASL_ZERO_PAGE_X
        || opcode == ops::CMP_ZERO_PAGE_X
        || opcode == ops::DEC_ZERO_PAGE_X
        || opcode == ops::EOR_ZERO_PAGE_X
        || opcode == ops::INC_ZERO_PAGE_X
        || opcode == ops::LDA_ZERO_PAGE_X
        || opcode == ops::LDY_ZERO_PAGE_X
        || opcode == ops::LSR_ZERO_PAGE_X
        || opcode == ops::ORA_ZERO_PAGE_X
        || opcode == ops::ROL_ZERO_PAGE_X
        || opcode == ops::ROR_ZERO_PAGE_X
        || opcode == ops::SBC_ZERO_PAGE_X
        || opcode == ops::STA_ZERO_PAGE_X
        || opcode == ops::STY_ZERO_PAGE_X {
        AddressMode::ZeroPageX
    } else if opcode == ops::LDX_ZERO_PAGE_Y
        || opcode == ops::STX_ZERO_PAGE_Y {
        AddressMode::ZeroPageY
    } else if opcode == ops::ADC_ABSOLUTE
        || opcode == ops::AND_ABSOLUTE
        || opcode == ops::ASL_ABSOLUTE
        || opcode == ops::BIT_ABSOLUTE
        || opcode == ops::CMP_ABSOLUTE
        || opcode == ops::CPX_ABSOLUTE
        || opcode == ops::CPY_ABSOLUTE
        || opcode == ops::DEC_ABSOLUTE
        || opcode == ops::EOR_ABSOLUTE
        || opcode == ops::INC_ABSOLUTE
        || opcode == ops::JMP_ABSOLUTE
        || opcode == ops::JSR_ABSOLUTE
        || opcode == ops::LDA_ABSOLUTE
        || opcode == ops::LDX_ABSOLUTE
        || opcode == ops::LDY_ABSOLUTE
        || opcode == ops::LSR_ABSOLUTE
        || opcode == ops::ORA_ABSOLUTE
        || opcode == ops::ROL_ABSOLUTE
        || opcode == ops::ROR_ABSOLUTE
        || opcode == ops::SBC_ABSOLUTE
        || opcode == ops::STA_ABSOLUTE
        || opcode == ops::STX_ABSOLUTE
        || opcode == ops::STY_ABSOLUTE {
        AddressMode::Absolute
    } else if opcode == ops::ADC_ABSOLUTE_X
        || opcode == ops::AND_ABSOLUTE_X
        || opcode == ops::ASL_ABSOLUTE_X
        || opcode == ops::CMP_ABSOLUTE_X
        || opcode == ops::DEC_ABSOLUTE_X
        || opcode == ops::EOR_ABSOLUTE_X
        || opcode == ops::INC_ABSOLUTE_X
        || opcode == ops::LDA_ABSOLUTE_X
        || opcode == ops::LDY_ABSOLUTE_X
        || opcode == ops::LSR_ABSOLUTE_X
        || opcode == ops::ORA_ABSOLUTE_X
        || opcode == ops::ROL_ABSOLUTE_X
        || opcode == ops::ROR_ABSOLUTE_X
        || opcode == ops::SBC_ABSOLUTE_X
        || opcode == ops::STA_ABSOLUTE_X {
        AddressMode::AbsoluteX
    } else if opcode == ops::ADC_ABSOLUTE_Y
        || opcode == ops::AND_ABSOLUTE_Y
        || opcode == ops::CMP_ABSOLUTE_Y
        || opcode == ops::EOR_ABSOLUTE_Y
        || opcode == ops::LDA_ABSOLUTE_Y
        || opcode == ops::LDX_ABSOLUTE_Y
        || opcode == ops::ORA_ABSOLUTE_Y
        || opcode == ops::SBC_ABSOLUTE_Y
        || opcode == ops::STA_ABSOLUTE_Y {
        AddressMode::AbsoluteY
    } else if opcode == ops::JMP_INDIRECT {
        AddressMode::Indirect
    } else if opcode == ops::ADC_INDIRECT_X
        || opcode == ops::AND_INDIRECT_X
        || opcode == ops::CMP_INDIRECT_X
        || opcode == ops::EOR_INDIRECT_X
        || opcode == ops::LDA_INDIRECT_X
        || opcode == ops::ORA_INDIRECT_X
        || opcode == ops::SBC_INDIRECT_X
        || opcode == ops::STA_INDIRECT_X {
        AddressMode::IndirectX
    } else if opcode == ops::ADC_INDIRECT_Y
        || opcode == ops::AND_INDIRECT_Y
        || opcode == ops::CMP_INDIRECT_Y
        || opcode == ops::EOR_INDIRECT_Y
        || opcode == ops::LDA_INDIRECT_Y
        || opcode == ops::ORA_INDIRECT_Y
        || opcode == ops::SBC_INDIRECT_Y
        || opcode == ops::STA_INDIRECT_Y {
        AddressMode::IndirectY
    } else if opcode == ops::BCC_RELATIVE
        || opcode == ops::BCS_RELATIVE
        || opcode == ops::BEQ_RELATIVE
        || opcode == ops::BMI_RELATIVE
        || opcode == ops::BNE_RELATIVE
        || opcode == ops::BPL_RELATIVE
        || opcode == ops::BVC_RELATIVE
        || opcode == ops::BVS_RELATIVE {
        AddressMode::Relative
    } else if opcode == ops::ASL_ACCUMULATOR
        || opcode == ops::LSR_ACCUMULATOR
        || opcode == ops::ROL_ACCUMULATOR
        || opcode == ops::ROR_ACCUMULATOR {
        AddressMode::Accumulator
    } else if opcode == ops::BRK_IMPLIED
        || opcode == ops::CLC_IMPLIED
        || opcode == ops::CLD_IMPLIED
        || opcode == ops::CLI_IMPLIED
        || opcode == ops::CLV_IMPLIED
        || opcode == ops::DEX_IMPLIED
        || opcode == ops::DEY_IMPLIED
        || opcode == ops::INX_IMPLIED
        || opcode == ops::INY_IMPLIED
        || opcode == ops::NOP_IMPLIED
        || opcode == ops::PHA_IMPLIED
        || opcode == ops::PHP_IMPLIED
        || opcode == ops::PLA_IMPLIED
        || opcode == ops::PLP_IMPLIED
        || opcode == ops::RTI_IMPLIED
        || opcode == ops::RTS_IMPLIED
        || opcode == ops::SEC_IMPLIED
        || opcode == ops::SED_IMPLIED
        || opcode == ops::SEI_IMPLIED
        || opcode == ops::TAX_IMPLIED
        || opcode == ops::TAY_IMPLIED
        || opcode == ops::TYA_IMPLIED
        || opcode == ops::TSX_IMPLIED
        || opcode == ops::TXA_IMPLIED
        || opcode == ops::TXS_IMPLIED {
        AddressMode::Implied
    } else if opcode == ops::custom::TOS_ABSOLUTE
        || opcode == ops::custom::PRT_ABSOLUTE {
        AddressMode::Absolute
    } else if opcode == ops::custom::VARIABLE {
        AddressMode::Immediate
    } else {
        AddressMode::Undefined
    }
}

/// The number of bytes by which the program counter moves past an
/// instruction in `mode`. A byte without a mode counts as one byte.
pub fn pc_offset(mode: &AddressMode) -> (len: usize)
    ensures
        len == instruction_len(*mode),
        1 <= len <= 3,
{
    match *mode {
        AddressMode::Label
        | AddressMode::LabelX
        | AddressMode::LabelY
        | AddressMode::ILabel
        | AddressMode::Absolute
        | AddressMode::AbsoluteX
        | AddressMode::AbsoluteY
        | AddressMode::Indirect => 3,
        AddressMode::Implied | AddressMode::Undefined => 1,
        _ => 2,
    }
}

/// Looks `opcode` up in the addressing-mode table.
pub fn get_addr_mode(opcode: u8) -> (mode: AddressMode)
    ensures
        mode == addr_mode_of(opcode),
{
    match opcode {
        ops::ADC_IMMEDIATE |
            ops::AND_IMMEDIATE |
            ops::CMP_IMMEDIATE |
            ops::CPX_IMMEDIATE |
            ops::CPY_IMMEDIATE |
            ops::EOR_IMMEDIATE |
            ops::LDA_IMMEDIATE |
            ops::LDX_IMMEDIATE |
            ops::LDY_IMMEDIATE |
            ops::ORA_IMMEDIATE |
            ops::SBC_IMMEDIATE => AddressMode::Immediate,
        ops::ADC_ZERO_PAGE |
            ops::AND_ZERO_PAGE |
            ops::ASL_ZERO_PAGE |
            ops::BIT_ZERO_PAGE |
            ops::CMP_ZERO_PAGE |
            ops::CPX_ZERO_PAGE |
            ops::CPY_ZERO_PAGE |
            ops::DEC_ZERO_PAGE |
            ops::EOR_ZERO_PAGE |
            ops::INC_ZERO_PAGE |
            ops::LDA_ZERO_PAGE |
            ops::LDX_ZERO_PAGE |
            ops::LDY_ZERO_PAGE |
            ops::LSR_ZERO_PAGE |
            ops::ORA_ZERO_PAGE |
            ops::ROL_ZERO_PAGE |
            ops::ROR_ZERO_PAGE |
            ops::SBC_ZERO_PAGE |
            ops::STA_ZERO_PAGE |
            ops::STX_ZERO_PAGE |
            ops::STY_ZERO_PAGE => AddressMode::ZeroPage,
        ops::ADC_ZERO_PAGE_X |
            ops::AND_ZERO_PAGE_X |
            ops::ASL_ZERO_PAGE_X |
            ops::CMP_ZERO_PAGE_X |
            ops::DEC_ZERO_PAGE_X |
            ops::EOR_ZERO_PAGE_X |
            ops::INC_ZERO_PAGE_X |
            ops::LDA_ZERO_PAGE_X |
            ops::LDY_ZERO_PAGE_X |
            ops::LSR_ZERO_PAGE_X |
            ops::ORA_ZERO_PAGE_X |
            ops::ROL_ZERO_PAGE_X |
            ops::ROR_ZERO_PAGE_X |
            ops::SBC_ZERO_PAGE_X |
            ops::STA_ZERO_PAGE_X |
            ops::STY_ZERO_PAGE_X => AddressMode::ZeroPageX,
        ops::LDX_ZERO_PAGE_Y |
            ops::STX_ZERO_PAGE_Y => AddressMode::ZeroPageY,
        ops::ADC_ABSOLUTE |
            ops::AND_ABSOLUTE |
            ops::ASL_ABSOLUTE |
            ops::BIT_ABSOLUTE |
            ops::CMP_ABSOLUTE |
            ops::CPX_ABSOLUTE |
            ops::CPY_ABSOLUTE |
            ops::DEC_ABSOLUTE |
            ops::EOR_ABSOLUTE |
            ops::INC_ABSOLUTE |
            ops::JMP_ABSOLUTE |
            ops::JSR_ABSOLUTE |
            ops::LDA_ABSOLUTE |
            ops::LDX_ABSOLUTE |
            ops::LDY_ABSOLUTE |
            ops::LSR_ABSOLUTE |
            ops::ORA_ABSOLUTE |
            ops::ROL_ABSOLUTE |
            ops::ROR_ABSOLUTE |
            ops::SBC_ABSOLUTE |
            ops::STA_ABSOLUTE |
            ops::STX_ABSOLUTE |
            ops::STY_ABSOLUTE => AddressMode::Absolute,
        ops::ADC_ABSOLUTE_X |
            ops::AND_ABSOLUTE_X |
            ops::ASL_ABSOLUTE_X |
            ops::CMP_ABSOLUTE_X |
            ops::DEC_ABSOLUTE_X |
            ops::EOR_ABSOLUTE_X |
            ops::INC_ABSOLUTE_X |
            ops::LDA_ABSOLUTE_X |
            ops::LDY_ABSOLUTE_X |
            ops::LSR_ABSOLUTE_X |
            ops::ORA_ABSOLUTE_X |
            ops::ROL_ABSOLUTE_X |
            ops::ROR_ABSOLUTE_X |
            ops::SBC_ABSOLUTE_X |
            ops::STA_ABSOLUTE_X => AddressMode::AbsoluteX,
        ops::ADC_ABSOLUTE_Y |
            ops::AND_ABSOLUTE_Y |
            ops::CMP_ABSOLUTE_Y |
            ops::EOR_ABSOLUTE_Y |
            ops::LDA_ABSOLUTE_Y |
            ops::LDX_ABSOLUTE_Y |
            ops::ORA_ABSOLUTE_Y |
            ops::SBC_ABSOLUTE_Y |
            ops::STA_ABSOLUTE_Y => AddressMode::AbsoluteY,
        ops::JMP_INDIRECT => AddressMode::Indirect,
        ops::ADC_INDIRECT_X |
            ops::AND_INDIRECT_X |
            ops::CMP_INDIRECT_X |
            ops::EOR_INDIRECT_X |
            ops::LDA_INDIRECT_X |
            ops::ORA_INDIRECT_X |
            ops::SBC_INDIRECT_X |
            ops::STA_INDIRECT_X => AddressMode::IndirectX,
        ops::ADC_INDIRECT_Y |
            ops::AND_INDIRECT_Y |
            ops::CMP_INDIRECT_Y |
            ops::EOR_INDIRECT_Y |
            ops::LDA_INDIRECT_Y |
            ops::ORA_INDIRECT_Y |
            ops::SBC_INDIRECT_Y |
            ops::STA_INDIRECT_Y => AddressMode::IndirectY,
        ops::BCC_RELATIVE |
            ops::BCS_RELATIVE |
            ops::BEQ_RELATIVE |
            ops::BMI_RELATIVE |
            ops::BNE_RELATIVE |
            ops::BPL_RELATIVE |
            ops::BVC_RELATIVE |
            ops::BVS_RELATIVE => AddressMode::Relative,
        ops::ASL_ACCUMULATOR |
            ops::LSR_ACCUMULATOR |
            ops::ROL_ACCUMULATOR |
            ops::ROR_ACCUMULATOR => AddressMode::Accumulator,
        ops::BRK_IMPLIED |
            ops::CLC_IMPLIED |
            ops::CLD_IMPLIED |
            ops::CLI_IMPLIED |
            ops::CLV_IMPLIED |
            ops::DEX_IMPLIED |
            ops::DEY_IMPLIED |
            ops::INX_IMPLIED |
            ops::INY_IMPLIED |
            ops::NOP_IMPLIED |
            ops::PHA_IMPLIED |
            ops::PHP_IMPLIED |
            ops::PLA_IMPLIED |
            ops::PLP_IMPLIED |
            ops::RTI_IMPLIED |
            ops::RTS_IMPLIED |
            ops::SEC_IMPLIED |
            ops::SED_IMPLIED |
            ops::SEI_IMPLIED |
            ops::TAX_IMPLIED |
            ops::TAY_IMPLIED |
            ops::TYA_IMPLIED |
            ops::TSX_IMPLIED |
            ops::TXA_IMPLIED |
            ops::TXS_IMPLIED => AddressMode::Implied,
        ops::custom::TOS_ABSOLUTE |
            ops::custom::PRT_ABSOLUTE => AddressMode::Absolute,
        ops::custom::VARIABLE => AddressMode::Immediate,
        _ => AddressMode::Undefined,
    }
}

} // verus!
