use dzemu::cpus::mcs6502;
use dzemu::cpus::mcs6502::Mcs6502;
use dzemu::cpus::Cpu;
use dzemu::cpus::Stack;
use dzemu::inst::mcs6502::ops;
use dzemu::inst::mcs6502::AddressMode;
use dzemu::mems::ram::Ram8b64kB;
use dzemu::mems::rom::Rom8b;
use dzemu::mems::Memory;
use dzemu::mems::Readable;

#[test]
fn op_adc() {
    let mut instructions: Vec<u8> = Vec::new();
    instructions.push(ops::ADC_ZERO_PAGE);
    instructions.push(0x0A);

    let cart = Rom8b::from_vec(instructions);
    let mut cpu = Mcs6502::new(Ram8b64kB::new());

    cpu.boot(&cart);
    cpu.set_flag(true, mcs6502::STS_NEG_MASK);
    cpu.accu = 0x05;
    cpu.memory().write_u8(0x0A, 0x02);

    let target = 0x05 + 0x02;
    cpu.execute().unwrap();
    assert_eq!(cpu.accu, target);
    assert!(!cpu.get_flag(mcs6502::STS_NEG_MASK));
}

#[test]
fn op_and() {
    let mut instructions: Vec<u8> = Vec::new();
    instructions.push(ops::AND_ZERO_PAGE);
    instructions.push(0x0A);

    let cart = Rom8b::from_vec(instructions);
    let mut cpu = Mcs6502::new(Ram8b64kB::new());

    cpu.boot(&cart);
    cpu.accu = 0xD5;
    cpu.memory().write_u8(0x0A, 0xAC);

    let target = 0xD5 & 0xAC;
    cpu.execute().unwrap();
    assert_eq!(cpu.accu, target);
}

#[test]
fn op_asl() {
    let mut instructions: Vec<u8> = Vec::new();
    instructions.push(ops::ASL_ZERO_PAGE);
    instructions.push(0x0A);
    instructions.push(ops::ASL_ACCUMULATOR);

    let cart = Rom8b::from_vec(instructions);
    let mut cpu = Mcs6502::new(Ram8b64kB::new());

    cpu.boot(&cart);

    let mut orig = 0xFF;
    cpu.memory().write_u8(0x0A, orig);
    let mut target = orig << 1;
    cpu.execute().unwrap();
    assert_eq!(cpu.memory().read_u8(0x0A), target);
    assert_eq!((orig & (1 << 7)) > 0, cpu.get_flag(mcs6502::STS_CAR_MASK));

    orig = 0x07;
    cpu.accu = orig;
    target = cpu.accu << 1;
    cpu.execute().unwrap();
    assert_eq!(cpu.accu, target);
    assert_eq!((orig & (1 << 7)) > 0, cpu.get_flag(mcs6502::STS_CAR_MASK));
}

fn aux_branch(opcode: u8, flag: u8, cond: bool) {
    let mut instructions: Vec<u8> = Vec::new();
    instructions.push(opcode);
    instructions.push(0x0A);
    instructions.push(opcode);
    instructions.push(0x0A);

    let cart = Rom8b::from_vec(instructions);
    let mut cpu = Mcs6502::new(Ram8b64kB::new());

    cpu.boot(&cart);

    // Fail to branch.
    let mut target = 0x02;
    cpu.set_flag(!cond, flag);
    cpu.execute().unwrap();
    assert_eq!(cpu.pc(), target);

    // Succeed at branching.
    target += 0x0A;
    cpu.set_flag(cond, flag);
    cpu.execute().unwrap();
    assert_eq!(cpu.pc(), target);
}

#[test]
fn op_bcc() {
    aux_branch(ops::BCC_RELATIVE, mcs6502::STS_CAR_MASK, false);
}

#[test]
fn op_bcs() {
    aux_branch(ops::BCS_RELATIVE, mcs6502::STS_CAR_MASK, true);
}

#[test]
fn op_beq() {
    aux_branch(ops::BEQ_RELATIVE, mcs6502::STS_ZER_MASK, true);
}

#[test]
fn op_bit() {
    let addr: u8 = 0x7F;
    let mut instructions: Vec<u8> = Vec::new();
    instructions.push(ops::BIT_ZERO_PAGE);
    instructions.push(addr);
    instructions.push(ops::BIT_ZERO_PAGE);
    instructions.push(addr);

    let cart = Rom8b::from_vec(instructions);
    let mut cpu = Mcs6502::new(Ram8b64kB::new());

    cpu.boot(&cart);
    cpu.memory().write_u8(addr as usize, 0b11001010);
    cpu.accu = 0b11101100;

    cpu.execute().unwrap();
    assert!(cpu.get_flag(mcs6502::STS_NEG_MASK));
    assert!(cpu.get_flag(mcs6502::STS_OVF_MASK));
    assert!(!cpu.get_flag(mcs6502::STS_ZER_MASK));

    cpu.memory().write_u8(addr as usize, 0b00000011);
    cpu.execute().unwrap();
    assert!(cpu.get_flag(mcs6502::STS_ZER_MASK));
}

#[test]
fn op_bmi() {
    aux_branch(ops::BMI_RELATIVE, mcs6502::STS_NEG_MASK, true);
}

#[test]
fn op_bne() {
    aux_branch(ops::BNE_RELATIVE, mcs6502::STS_ZER_MASK, false);
}

#[test]
fn op_bpl() {
    aux_branch(ops::BPL_RELATIVE, mcs6502::STS_NEG_MASK, false);
}

#[test]
fn op_brk() {
    let mut instructions: Vec<u8> = Vec::new();
    instructions.push(ops::BRK_IMPLIED);

    let cart = Rom8b::from_vec(instructions);
    let mut cpu = Mcs6502::new(Ram8b64kB::new());

    cpu.boot(&cart);
    cpu.memory().write_u16(mcs6502::INT_REQ_ADDRESS, 0xBEEF);
    cpu.set_flag(true, mcs6502::STS_CAR_MASK);
    cpu.set_flag(true, mcs6502::STS_OVF_MASK);
    cpu.set_flag(true, mcs6502::STS_INT_MASK);
    let pc = cpu.pc();
    let status = cpu.status;

    cpu.execute().unwrap();
    assert_eq!(cpu.pc(), 0xBEEF);
    let stack_status = cpu.pop_u8();
    assert_eq!(stack_status, status);
    let stack_pc = cpu.pop_u16() as usize;
    assert_eq!(stack_pc, pc + 2)
}

#[test]
fn op_bvc() {
    aux_branch(ops::BVC_RELATIVE, mcs6502::STS_OVF_MASK, false);
}

#[test]
fn op_bvs() {
    aux_branch(ops::BVS_RELATIVE, mcs6502::STS_OVF_MASK, true);
}

fn aux_clear(opcode: u8, flag: u8) {
    let mut instructions: Vec<u8> = Vec::new();
    instructions.push(opcode);

    let cart = Rom8b::from_vec(instructions);
    let mut cpu = Mcs6502::new(Ram8b64kB::new());

    cpu.boot(&cart);
    cpu.set_flag(true, flag);
    cpu.execute().unwrap();
    assert!(!cpu.get_flag(flag));
}

#[test]
fn op_clc() {
    aux_clear(ops::CLC_IMPLIED, mcs6502::STS_CAR_MASK);
}

#[test]
fn op_cld() {
    aux_clear(ops::CLD_IMPLIED, mcs6502::STS_DEC_MASK);
}

#[test]
fn op_cli() {
    aux_clear(ops::CLI_IMPLIED, mcs6502::STS_INT_MASK);
}

#[test]
fn op_clv() {
    aux_clear(ops::CLV_IMPLIED, mcs6502::STS_OVF_MASK);
}

#[test]
fn op_cmp() {
    let mut instructions: Vec<u8> = Vec::new();
    instructions.push(ops::CMP_IMMEDIATE);
    instructions.push(0x05);
    instructions.push(ops::CMP_IMMEDIATE);
    instructions.push(0x06);
    instructions.push(ops::CMP_IMMEDIATE);
    instructions.push(0x07);

    let cart = Rom8b::from_vec(instructions);
    let mut cpu = Mcs6502::new(Ram8b64kB::new());

    cpu.boot(&cart);
    cpu.accu = 0x06;

    cpu.execute().unwrap();
    assert!(cpu.get_flag(mcs6502::STS_CAR_MASK));

    cpu.execute().unwrap();
    assert!(cpu.get_flag(mcs6502::STS_ZER_MASK));
    assert!(cpu.get_flag(mcs6502::STS_CAR_MASK));

    cpu.execute().unwrap();
    assert!(cpu.get_flag(mcs6502::STS_NEG_MASK));
}

#[test]
fn op_cpx() {
    let mut instructions: Vec<u8> = Vec::new();
    instructions.push(ops::CPX_IMMEDIATE);
    instructions.push(0x05);
    instructions.push(ops::CPX_IMMEDIATE);
    instructions.push(0x06);
    instructions.push(ops::CPX_IMMEDIATE);
    instructions.push(0x07);

    let cart = Rom8b::from_vec(instructions);
    let mut cpu = Mcs6502::new(Ram8b64kB::new());

    cpu.boot(&cart);
    cpu.idx_x = 0x06;

    cpu.execute().unwrap();
    assert!(cpu.get_flag(mcs6502::STS_CAR_MASK));

    cpu.execute().unwrap();
    assert!(cpu.get_flag(mcs6502::STS_ZER_MASK));
    assert!(cpu.get_flag(mcs6502::STS_CAR_MASK));

    cpu.execute().unwrap();
    assert!(cpu.get_flag(mcs6502::STS_NEG_MASK));
}

#[test]
fn op_cpy() {
    let mut instructions: Vec<u8> = Vec::new();
    instructions.push(ops::CPY_IMMEDIATE);
    instructions.push(0x05);
    instructions.push(ops::CPY_IMMEDIATE);
    instructions.push(0x06);
    instructions.push(ops::CPY_IMMEDIATE);
    instructions.push(0x07);

    let cart = Rom8b::from_vec(instructions);
    let mut cpu = Mcs6502::new(Ram8b64kB::new());

    cpu.boot(&cart);
    cpu.idx_y = 0x06;

    cpu.execute().unwrap();
    assert!(cpu.get_flag(mcs6502::STS_CAR_MASK));

    cpu.execute().unwrap();
    assert!(cpu.get_flag(mcs6502::STS_ZER_MASK));
    assert!(cpu.get_flag(mcs6502::STS_CAR_MASK));

    cpu.execute().unwrap();
    assert!(cpu.get_flag(mcs6502::STS_NEG_MASK));
}

#[test]
fn op_dec() {
    let mut instructions: Vec<u8> = Vec::new();
    instructions.push(ops::DEC_ABSOLUTE);
    instructions.push(0x0A);
    instructions.push(0x00);

    let cart = Rom8b::from_vec(instructions);
    let mut cpu = Mcs6502::new(Ram8b64kB::new());

    cpu.boot(&cart);
    cpu.memory().write_u8(0x000A, 5);
    cpu.execute().unwrap();
    assert_eq!(cpu.memory().read_u8(0x000A), 4);
}

#[test]
fn op_dex() {
    let mut instructions: Vec<u8> = Vec::new();
    instructions.push(ops::DEX_IMPLIED);

    let cart = Rom8b::from_vec(instructions);
    let mut cpu = Mcs6502::new(Ram8b64kB::new());

    cpu.boot(&cart);
    cpu.idx_x = 0x0B;
    cpu.execute().unwrap();
    assert_eq!(cpu.idx_x, 0x0A);
}

#[test]
fn op_dey() {
    let mut instructions: Vec<u8> = Vec::new();
    instructions.push(ops::DEY_IMPLIED);

    let cart = Rom8b::from_vec(instructions);
    let mut cpu = Mcs6502::new(Ram8b64kB::new());

    cpu.boot(&cart);
    cpu.idx_y = 0x0B;
    cpu.execute().unwrap();
    assert_eq!(cpu.idx_y, 0x0A);
}

#[test]
fn op_eor() {
    let mut instructions: Vec<u8> = Vec::new();
    instructions.push(ops::EOR_ZERO_PAGE);
    instructions.push(0x0A);

    let cart = Rom8b::from_vec(instructions);
    let mut cpu = Mcs6502::new(Ram8b64kB::new());

    cpu.boot(&cart);
    cpu.accu = 0x31;
    cpu.memory().write_u8(0x0A, 0xF3);

    let target = 0x31 ^ 0xF3;
    cpu.execute().unwrap();
    assert_eq!(cpu.accu, target);
}

#[test]
fn op_inc() {
    let mut instructions: Vec<u8> = Vec::new();
    instructions.push(ops::INC_ABSOLUTE);
    instructions.push(0x0A);
    instructions.push(0x00);

    let cart = Rom8b::from_vec(instructions);
    let mut cpu = Mcs6502::new(Ram8b64kB::new());

    cpu.boot(&cart);
    cpu.memory().write_u8(0x000A, 5);
    cpu.execute().unwrap();
    assert_eq!(cpu.memory().read_u8(0x000A), 6);
}

#[test]
fn op_inx() {
    let mut instructions: Vec<u8> = Vec::new();
    instructions.push(ops::INX_IMPLIED);

    let cart = Rom8b::from_vec(instructions);
    let mut cpu = Mcs6502::new(Ram8b64kB::new());

    cpu.boot(&cart);
    cpu.idx_x = 0x0A;
    cpu.execute().unwrap();
    assert_eq!(cpu.idx_x, 0x0B);
}

#[test]
fn op_iny() {
    let mut instructions: Vec<u8> = Vec::new();
    instructions.push(ops::INY_IMPLIED);

    let cart = Rom8b::from_vec(instructions);
    let mut cpu = Mcs6502::new(Ram8b64kB::new());

    cpu.boot(&cart);
    cpu.idx_y = 0x0A;
    cpu.execute().unwrap();
    assert_eq!(cpu.idx_y, 0x0B);
}

#[test]
fn op_jmp() {
    let mut instructions: Vec<u8> = Vec::new();
    instructions.push(ops::JMP_ABSOLUTE);
    instructions.push(0xA0);
    instructions.push(0x01);

    let cart = Rom8b::from_vec(instructions);
    let mut cpu = Mcs6502::new(Ram8b64kB::new());

    cpu.boot(&cart);
    let mut target = 0x01A0;

    cpu.execute().unwrap();
    assert_eq!(cpu.addr_mode, AddressMode::Absolute);
    assert_eq!(cpu.pc(), target);

    cpu.memory().write_u8(target, ops::JMP_INDIRECT);
    cpu.memory().write_u16(target + 1, 0xABBA);
    cpu.memory().write_u16(0xABBA, 0xBAAB);
    target = 0xBAAB;

    cpu.execute().unwrap();
    assert_eq!(cpu.addr_mode, AddressMode::Indirect);
    assert_eq!(cpu.pc(), target);
}

#[test]
fn op_jsr() {
    let mut instructions: Vec<u8> = Vec::new();
    instructions.push(0x00);
    instructions.push(ops::JSR_ABSOLUTE);
    instructions.push(0xA0);
    instructions.push(0x01);

    let cart = Rom8b::from_vec(instructions);
    let mut cpu = Mcs6502::new(Ram8b64kB::new());

    cpu.boot(&cart);
    cpu.pc += 1;

    cpu.execute().unwrap();
    let stored_pc = cpu.pop_u16() as usize;
    assert_eq!(stored_pc, 0x03);
    assert_eq!(cpu.pc(), 0x01A0);
}

#[test]
fn op_lda() {
    let mut instructions: Vec<u8> = Vec::new();
    instructions.push(ops::LDA_IMMEDIATE);
    instructions.push(0xAB);
    instructions.push(ops::LDA_ABSOLUTE);
    instructions.push(0x34);
    instructions.push(0x12);

    let cart = Rom8b::from_vec(instructions);
    let mut cpu = Mcs6502::new(Ram8b64kB::new());

    cpu.boot(&cart);
    let mut target = 0xAB;

    cpu.execute().unwrap();
    assert_eq!(cpu.accu, target);

    target = 0xFC;
    cpu.memory().write_u8(0x1234, target);
    cpu.execute().unwrap();
    assert_eq!(cpu.accu, target);
}

#[test]
fn op_ldx() {
    let mut instructions: Vec<u8> = Vec::new();
    instructions.push(ops::LDX_IMMEDIATE);
    instructions.push(0xAB);
    instructions.push(ops::LDX_ABSOLUTE);
    instructions.push(0x34);
    instructions.push(0x12);

    let cart = Rom8b::from_vec(instructions);
    let mut cpu = Mcs6502::new(Ram8b64kB::new());

    cpu.boot(&cart);
    let mut target = 0xAB;

    cpu.execute().unwrap();
    assert_eq!(cpu.idx_x, target);

    target = 0xFC;
    cpu.memory().write_u8(0x1234, target);
    cpu.execute().unwrap();
    assert_eq!(cpu.idx_x, target);
}

#[test]
fn op_ldy() {
    let mut instructions: Vec<u8> = Vec::new();
    instructions.push(ops::LDY_IMMEDIATE);
    instructions.push(0xAB);
    instructions.push(ops::LDY_ABSOLUTE);
    instructions.push(0x34);
    instructions.push(0x12);

    let cart = Rom8b::from_vec(instructions);
    let mut cpu = Mcs6502::new(Ram8b64kB::new());

    cpu.boot(&cart);
    let mut target = 0xAB;

    cpu.execute().unwrap();
    assert_eq!(cpu.idx_y, target);

    target = 0xFC;
    cpu.memory().write_u8(0x1234, target);
    cpu.execute().unwrap();
    assert_eq!(cpu.idx_y, target);
}

#[test]
fn op_lsr() {
    let mut instructions: Vec<u8> = Vec::new();
    instructions.push(ops::LSR_ZERO_PAGE);
    instructions.push(0x0A);
    instructions.push(ops::LSR_ACCUMULATOR);

    let cart = Rom8b::from_vec(instructions);
    let mut cpu = Mcs6502::new(Ram8b64kB::new());

    cpu.boot(&cart);

    let mut orig = 0xF3;
    cpu.memory().write_u8(0x0A, orig);
    let mut target = orig >> 1;
    cpu.execute().unwrap();
    assert_eq!(cpu.memory().read_u8(0x0A), target);
    assert_eq!((orig & 1) == 1, cpu.get_flag(mcs6502::STS_CAR_MASK));

    orig = 0x0A;
    cpu.accu = orig;
    target = cpu.accu >> 1;
    cpu.execute().unwrap();
    assert_eq!(cpu.accu, target);
    assert_eq!((orig & 1) == 1, cpu.get_flag(mcs6502::STS_CAR_MASK));
}

#[test]
fn op_nop() {
    assert!(true);
}

#[test]
fn op_ora() {
    let mut instructions: Vec<u8> = Vec::new();
    instructions.push(ops::ORA_ZERO_PAGE);
    instructions.push(0x0A);

    let cart = Rom8b::from_vec(instructions);
    let mut cpu = Mcs6502::new(Ram8b64kB::new());

    cpu.boot(&cart);
    cpu.accu = 0x31;
    cpu.memory().write_u8(0x0A, 0xF3);

    let target = 0x31 | 0xF3;
    cpu.execute().unwrap();
    assert_eq!(cpu.accu, target);
}

#[test]
fn op_pha() {
    let mut instructions: Vec<u8> = Vec::new();
    instructions.push(ops::PHA_IMPLIED);

    let cart = Rom8b::from_vec(instructions);
    let mut cpu = Mcs6502::new(Ram8b64kB::new());

    cpu.boot(&cart);

    cpu.accu = 0xAF;
    cpu.execute().unwrap();

    let top = cpu.pop_u8();
    assert_eq!(top, cpu.accu);
}

#[test]
fn op_php() {
    let mut instructions: Vec<u8> = Vec::new();
    instructions.push(ops::PHP_IMPLIED);

    let cart = Rom8b::from_vec(instructions);
    let mut cpu = Mcs6502::new(Ram8b64kB::new());

    cpu.boot(&cart);

    cpu.set_flag(true, mcs6502::STS_CAR_MASK);
    cpu.set_flag(true, mcs6502::STS_NEG_MASK);
    cpu.set_flag(false, mcs6502::STS_ZER_MASK);
    cpu.set_flag(true, mcs6502::STS_DEC_MASK);
    cpu.set_flag(false, mcs6502::STS_INT_MASK);
    cpu.set_flag(true, mcs6502::STS_OVF_MASK);
    cpu.execute().unwrap();

    let top = cpu.pop_u8();

    assert!((top & mcs6502::STS_CAR_MASK) > 0);
    assert!((top & mcs6502::STS_NEG_MASK) > 0);
    assert!((top & mcs6502::STS_ZER_MASK) == 0);
    assert!((top & mcs6502::STS_DEC_MASK) > 0);
    assert!((top & mcs6502::STS_INT_MASK) == 0);
    assert!((top & mcs6502::STS_OVF_MASK) > 0);
}

#[test]
fn op_pla() {
    let mut instructions: Vec<u8> = Vec::new();
    instructions.push(ops::PLA_IMPLIED);

    let cart = Rom8b::from_vec(instructions);
    let mut cpu = Mcs6502::new(Ram8b64kB::new());

    cpu.boot(&cart);
    cpu.push_u8(0xFA);

    cpu.execute().unwrap();

    assert_eq!(cpu.accu, 0xFA);
}

#[test]
fn op_plp() {
    let mut instructions: Vec<u8> = Vec::new();
    instructions.push(ops::PLP_IMPLIED);

    let cart = Rom8b::from_vec(instructions);
    let mut cpu = Mcs6502::new(Ram8b64kB::new());

    cpu.boot(&cart);

    let mut state = 0u8;
    state |= mcs6502::STS_CAR_MASK;
    state |= mcs6502::STS_INT_MASK;
    state |= mcs6502::STS_NEG_MASK;
    cpu.push_u8(state);

    cpu.execute().unwrap();

    assert!(cpu.get_flag(mcs6502::STS_CAR_MASK));
    assert!(cpu.get_flag(mcs6502::STS_NEG_MASK));
    assert!(!cpu.get_flag(mcs6502::STS_ZER_MASK));
    assert!(!cpu.get_flag(mcs6502::STS_DEC_MASK));
    assert!(cpu.get_flag(mcs6502::STS_INT_MASK));
    assert!(!cpu.get_flag(mcs6502::STS_OVF_MASK));
}

#[test]
fn op_rol() {
    let mut instructions: Vec<u8> = Vec::new();
    instructions.push(ops::ROL_ZERO_PAGE);
    instructions.push(0x0A);

    let cart = Rom8b::from_vec(instructions);
    let mut cpu = Mcs6502::new(Ram8b64kB::new());

    cpu.boot(&cart);
    cpu.set_flag(true, mcs6502::STS_CAR_MASK);

    let orig = 0b1011;
    cpu.memory().write_u8(0x0A, orig);
    let mut target = orig << 1;
    if cpu.get_flag(mcs6502::STS_CAR_MASK) {
        target |= 1;
    }

    cpu.execute().unwrap();
    assert_eq!(cpu.memory().read_u8(0x0A), target);
    assert_eq!((orig & (1 << 7)) > 0, cpu.get_flag(mcs6502::STS_CAR_MASK));
}

#[test]
fn op_ror() {
    let mut instructions: Vec<u8> = Vec::new();
    instructions.push(ops::ROR_ZERO_PAGE);
    instructions.push(0x0A);

    let cart = Rom8b::from_vec(instructions);
    let mut cpu = Mcs6502::new(Ram8b64kB::new());

    cpu.boot(&cart);
    cpu.set_flag(true, mcs6502::STS_CAR_MASK);

    let orig = 0b1011;
    cpu.memory().write_u8(0x0A, orig);
    let mut target = orig >> 1;
    if cpu.get_flag(mcs6502::STS_CAR_MASK) {
        target |= 1 << 7;
    }

    cpu.execute().unwrap();
    assert_eq!(cpu.memory().read_u8(0x0A), target);
    assert_eq!((orig & 1) == 1, cpu.get_flag(mcs6502::STS_CAR_MASK));
}

#[test]
fn op_rti() {
    // RTI is a status pull followed by an address pull.
    op_plp();
    op_rts();
}

#[test]
fn op_rts() {
    let mut instructions: Vec<u8> = Vec::new();
    instructions.push(ops::RTS_IMPLIED);

    let cart = Rom8b::from_vec(instructions);
    let mut cpu = Mcs6502::new(Ram8b64kB::new());

    cpu.boot(&cart);

    let mut target = 0xFFAA;
    cpu.push_u16(target);
    target += 1; // JSR stores address of its last byte.

    cpu.execute().unwrap();
    assert_eq!(cpu.pc(), target as usize);
}

#[test]
fn op_sbc() {
    let mut instructions: Vec<u8> = Vec::new();
    instructions.push(ops::SBC_ZERO_PAGE);
    instructions.push(0x0A);

    let cart = Rom8b::from_vec(instructions);
    let mut cpu = Mcs6502::new(Ram8b64kB::new());

    cpu.boot(&cart);
    cpu.set_flag(true, mcs6502::STS_CAR_MASK);
    cpu.accu = 0x05;
    cpu.memory().write_u8(0x0A, 0x02);

    let target = 0x05 - 0x02;
    cpu.execute().unwrap();
    assert_eq!(cpu.accu, target);
}

fn aux_set(opcode: u8, flag: u8) {
    let mut instructions: Vec<u8> = Vec::new();
    instructions.push(opcode);

    let cart = Rom8b::from_vec(instructions);
    let mut cpu = Mcs6502::new(Ram8b64kB::new());

    cpu.boot(&cart);
    cpu.set_flag(false, flag);
    cpu.execute().unwrap();
    assert!(cpu.get_flag(flag));
}

#[test]
fn op_sec() {
    aux_set(ops::SEC_IMPLIED, mcs6502::STS_CAR_MASK);
}

#[test]
fn op_sed() {
    aux_set(ops::SED_IMPLIED, mcs6502::STS_DEC_MASK);
}

#[test]
fn op_sei() {
    aux_set(ops::SEI_IMPLIED, mcs6502::STS_INT_MASK);
}

#[test]
fn op_sta() {
    let mut instructions: Vec<u8> = Vec::new();
    instructions.push(ops::STA_ZERO_PAGE);
    instructions.push(0x35);

    let cart = Rom8b::from_vec(instructions);
    let mut cpu = Mcs6502::new(Ram8b64kB::new());

    cpu.boot(&cart);
    cpu.accu = 0xAC;

    cpu.execute().unwrap();
    let res = cpu.memory().read_u8(0x35);
    assert_eq!(cpu.accu, res);
}

#[test]
fn op_stx() {
    let mut instructions: Vec<u8> = Vec::new();
    instructions.push(ops::STX_ZERO_PAGE_Y);
    instructions.push(0x35);

    let cart = Rom8b::from_vec(instructions);
    let mut cpu = Mcs6502::new(Ram8b64kB::new());

    cpu.boot(&cart);
    cpu.idx_x = 0xAC;
    cpu.idx_y = 0x05;

    cpu.execute().unwrap();
    let addr: usize = 0x35 + 0x05;
    let res = cpu.memory().read_u8(addr);
    assert_eq!(cpu.idx_x, res);
}

#[test]
fn op_sty() {
    let mut instructions: Vec<u8> = Vec::new();
    instructions.push(ops::STY_ZERO_PAGE_X);
    instructions.push(0x35);

    let cart = Rom8b::from_vec(instructions);
    let mut cpu = Mcs6502::new(Ram8b64kB::new());

    cpu.boot(&cart);
    cpu.idx_y = 0xAC;
    cpu.idx_x = 0xFB; // -5

    cpu.execute().unwrap();
    let addr: usize = 0x30;
    let res = cpu.memory().read_u8(addr);
    assert_eq!(cpu.idx_y, res);
}

#[test]
fn op_tax() {
    let mut instructions: Vec<u8> = Vec::new();
    instructions.push(ops::TAX_IMPLIED);

    let cart = Rom8b::from_vec(instructions);
    let mut cpu = Mcs6502::new(Ram8b64kB::new());

    cpu.boot(&cart);
    cpu.accu = 0xC5;

    cpu.execute().unwrap();
    assert_eq!(cpu.idx_x, cpu.accu);
}

#[test]
fn op_tay() {
    let mut instructions: Vec<u8> = Vec::new();
    instructions.push(ops::TAY_IMPLIED);

    let cart = Rom8b::from_vec(instructions);
    let mut cpu = Mcs6502::new(Ram8b64kB::new());

    cpu.boot(&cart);
    cpu.accu = 0xC5;

    cpu.execute().unwrap();
    assert_eq!(cpu.idx_y, cpu.accu);
}

#[test]
fn op_tya() {
    let mut instructions: Vec<u8> = Vec::new();
    instructions.push(ops::TYA_IMPLIED);

    let cart = Rom8b::from_vec(instructions);
    let mut cpu = Mcs6502::new(Ram8b64kB::new());

    cpu.boot(&cart);
    cpu.idx_y = 0xC5;

    cpu.execute().unwrap();
    assert_eq!(cpu.accu, cpu.idx_y);
}

#[test]
fn op_tsx() {
    let mut instructions: Vec<u8> = Vec::new();
    instructions.push(ops::TSX_IMPLIED);

    let cart = Rom8b::from_vec(instructions);
    let mut cpu = Mcs6502::new(Ram8b64kB::new());

    cpu.boot(&cart);

    cpu.execute().unwrap();
    assert_eq!(cpu.idx_x, cpu.sp);
}

#[test]
fn op_txa() {
    let mut instructions: Vec<u8> = Vec::new();
    instructions.push(ops::TXA_IMPLIED);

    let cart = Rom8b::from_vec(instructions);
    let mut cpu = Mcs6502::new(Ram8b64kB::new());

    cpu.boot(&cart);
    cpu.idx_x = 0xC5;

    cpu.execute().unwrap();
    assert_eq!(cpu.accu, cpu.idx_x);
}

#[test]
fn op_txs() {
    let mut instructions: Vec<u8> = Vec::new();
    instructions.push(ops::TXS_IMPLIED);

    let cart = Rom8b::from_vec(instructions);
    let mut cpu = Mcs6502::new(Ram8b64kB::new());

    cpu.boot(&cart);
    cpu.idx_x = 0xC5;

    cpu.execute().unwrap();
    assert_eq!(cpu.sp, cpu.idx_x);
}

#[test]
fn op_prt() {
    let addr: usize = 0x04FF;
    let mut instructions: Vec<u8> = Vec::new();
    instructions.push(ops::custom::PRT_ABSOLUTE);
    instructions.push((addr & 0xFF) as u8);
    instructions.push((addr >> 8) as u8);

    let cart = Rom8b::from_vec(instructions);
    let mut cpu = Mcs6502::new(Ram8b64kB::new());

    cpu.boot(&cart);
    cpu.memory().write_u8(addr, 0x48);
    cpu.memory().write_u8(addr + 1, 0x45);
    cpu.memory().write_u8(addr + 2, 0x4C);
    cpu.memory().write_u8(addr + 3, 0x4C);
    cpu.memory().write_u8(addr + 4, 0x4F);
    cpu.memory().write_u8(addr + 5, 0x00);

    cpu.execute().unwrap();
    assert_eq!(cpu.take_output(), vec![0x48, 0x45, 0x4C, 0x4C, 0x4F, 0x00]);
}

#[test]
fn prg_function_call() {
    let mut instructions: Vec<u8> = Vec::new();
    instructions.push(ops::LDX_IMMEDIATE);
    instructions.push(0xAB);
    instructions.push(ops::JSR_ABSOLUTE);
    instructions.push(0x34);
    instructions.push(0x12);
    instructions.push(ops::LDX_IMMEDIATE);
    instructions.push(0xBC);

    let cart = Rom8b::from_vec(instructions);
    let mut cpu = Mcs6502::new(Ram8b64kB::new());

    cpu.boot(&cart);

    // Create the function.
    let mut instructions: Vec<u8> = Vec::new();
    instructions.push(ops::LDY_IMMEDIATE);
    instructions.push(0x3D);
    instructions.push(ops::RTS_IMPLIED);
    let func = Rom8b::from_vec(instructions);
    cpu.memory().map(0x1234, &func);

    // Note: After it executes everything, mem[pc] is equal
    //       to 0, which will execute BRK, which loads the
    //       value at mem[INT_REQ_ADDRESS], resetting the
    //       sequence.
    for _ in 0..5 {
        cpu.execute().unwrap();
    }

    assert_eq!(cpu.idx_x, 0xBC);
    assert_eq!(cpu.idx_y, 0x3D);
}
