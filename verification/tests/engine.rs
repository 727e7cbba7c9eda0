use dzemu::cpus::mcs6502::{
    CpuError, Mcs6502, INT_NOMASK_ADDRESS, INT_REQ_ADDRESS, PC_INIT_ADDRESS, STS_BRK_MASK,
    STS_CAR_MASK, STS_DEC_MASK, STS_INT_MASK, STS_NEG_MASK, STS_OVF_MASK, STS_ZER_MASK,
};
use dzemu::cpus::{Cpu, Stack};
use dzemu::inst::mcs6502::addr::{get_addr_mode, pc_offset};
use dzemu::inst::mcs6502::{addr_mode_to_operand, disassemble, op_to_str, ops, AddressMode};
use dzemu::mems::ram::Ram8b64kB;
use dzemu::mems::rom::Rom8b;
use dzemu::mems::{Memory, Readable};

fn booted(program: &[u8]) -> Mcs6502<Ram8b64kB> {
    let ram = Ram8b64kB::new();
    assert_eq!(ram.size(), 64 * 1024);
    let mut cpu = Mcs6502::new(ram);
    cpu.boot(&Rom8b::from_vec(program.to_vec()));
    cpu
}

#[test]
fn a_new_processor() {
    let cpu = Mcs6502::new(Ram8b64kB::new());
    assert_eq!(cpu.pc(), 0);
    assert_eq!(cpu.sp, 0xFF);
    assert_eq!(cpu.sp(), 0x01FF);
    assert_eq!((cpu.accu, cpu.idx_x, cpu.idx_y, cpu.status), (0, 0, 0, 0));
    assert_eq!(cpu.addr_mode, AddressMode::Undefined);
}

#[test]
fn boot_copies_the_image_then_reads_the_reset_vector() {
    let mut image = vec![0u8; 0x10000];
    image[0] = ops::NOP_IMPLIED;
    image[PC_INIT_ADDRESS] = 0x34;
    image[PC_INIT_ADDRESS + 1] = 0x12;
    let mut cpu = Mcs6502::new(Ram8b64kB::new());
    cpu.accu = 7;
    cpu.idx_x = 8;
    cpu.idx_y = 9;
    cpu.boot(&Rom8b::from_vec(image));
    assert_eq!(cpu.pc(), 0x1234);
    assert!(cpu.get_flag(STS_INT_MASK));
    assert_eq!(cpu.sp, 0xFD);
    assert_eq!((cpu.accu, cpu.idx_x, cpu.idx_y), (0, 0, 0));
    assert_eq!(cpu.memory().read_u8(0), ops::NOP_IMPLIED);
}

#[test]
fn restart_takes_the_program_counter_from_the_reset_vector() {
    let mut cpu = booted(&[]);
    cpu.set_init_pc_value(0xC000);
    cpu.set_flag(false, STS_INT_MASK);
    cpu.accu = 3;
    cpu.restart();
    assert_eq!(cpu.pc(), 0xC000);
    assert!(cpu.get_flag(STS_INT_MASK));
    assert_eq!(cpu.accu, 0);
    assert_eq!(cpu.sp, 0xFD);
}

#[test]
fn adc_sets_its_flags() {
    let mut cpu = booted(&[ops::ADC_ZERO_PAGE, 0x0A, ops::ADC_ZERO_PAGE, 0x0B]);
    cpu.accu = 0x05;
    cpu.set_flag(false, STS_CAR_MASK);
    cpu.memory().write_u8(0x0A, 0x02);
    cpu.memory().write_u8(0x0B, 0x01);
    cpu.execute().unwrap();
    assert_eq!(cpu.accu, 0x07);
    assert!(!cpu.get_flag(STS_CAR_MASK));
    assert!(!cpu.get_flag(STS_ZER_MASK));
    assert!(!cpu.get_flag(STS_NEG_MASK));
    assert!(!cpu.get_flag(STS_OVF_MASK));

    cpu.accu = 0xFF;
    cpu.execute().unwrap();
    assert_eq!(cpu.accu, 0x00);
    assert!(cpu.get_flag(STS_CAR_MASK));
    assert!(cpu.get_flag(STS_ZER_MASK));
    assert!(!cpu.get_flag(STS_NEG_MASK));
    assert!(!cpu.get_flag(STS_OVF_MASK));
}

#[test]
fn adc_adds_the_carry_and_reports_signed_overflow() {
    let mut cpu = booted(&[ops::ADC_IMMEDIATE, 0x50, ops::ADC_IMMEDIATE, 0x80]);
    cpu.accu = 0x50;
    cpu.set_flag(true, STS_CAR_MASK);
    cpu.execute().unwrap();
    assert_eq!(cpu.accu, 0xA1);
    assert!(cpu.get_flag(STS_OVF_MASK));
    assert!(cpu.get_flag(STS_NEG_MASK));
    assert!(!cpu.get_flag(STS_CAR_MASK));

    cpu.accu = 0x80;
    cpu.execute().unwrap();
    assert_eq!(cpu.accu, 0x00);
    assert!(cpu.get_flag(STS_OVF_MASK));
    assert!(cpu.get_flag(STS_CAR_MASK));
    assert!(cpu.get_flag(STS_ZER_MASK));
}

#[test]
fn sbc_borrows_and_sets_its_flags() {
    let mut cpu = booted(&[
        ops::SBC_IMMEDIATE,
        0x02,
        ops::SBC_IMMEDIATE,
        0x05,
        ops::SBC_IMMEDIATE,
        0x01,
        ops::SBC_IMMEDIATE,
        0x03,
    ]);
    cpu.accu = 0x05;
    cpu.set_flag(false, STS_CAR_MASK);
    cpu.execute().unwrap();
    assert_eq!(cpu.accu, 0x02);
    assert!(cpu.get_flag(STS_CAR_MASK));

    cpu.accu = 0x05;
    cpu.execute().unwrap();
    assert_eq!(cpu.accu, 0x00);
    assert!(cpu.get_flag(STS_ZER_MASK));
    assert!(cpu.get_flag(STS_CAR_MASK));

    cpu.accu = 0x80;
    cpu.execute().unwrap();
    assert_eq!(cpu.accu, 0x7F);
    assert!(cpu.get_flag(STS_OVF_MASK));
    assert!(cpu.get_flag(STS_CAR_MASK));
    assert!(!cpu.get_flag(STS_NEG_MASK));

    cpu.accu = 0x01;
    cpu.execute().unwrap();
    assert_eq!(cpu.accu, 0xFE);
    assert!(!cpu.get_flag(STS_CAR_MASK));
    assert!(cpu.get_flag(STS_NEG_MASK));
    assert!(!cpu.get_flag(STS_OVF_MASK));
}

#[test]
fn decimal_arithmetic_is_refused() {
    let mut cpu = booted(&[ops::ADC_IMMEDIATE, 0x01, ops::SBC_IMMEDIATE, 0x01]);
    cpu.set_flag(true, STS_DEC_MASK);
    cpu.accu = 0x09;
    let status = cpu.status;
    assert_eq!(cpu.execute(), Err(CpuError::DecimalMode));
    assert_eq!((cpu.pc(), cpu.accu, cpu.status), (0, 0x09, status));
    assert_eq!(cpu.addr_mode, AddressMode::Undefined);
    cpu.pc = 2;
    assert_eq!(cpu.execute(), Err(CpuError::DecimalMode));
    assert_eq!((cpu.pc(), cpu.accu, cpu.status), (2, 0x09, status));
}

#[test]
fn compare_is_unsigned_for_carry() {
    let mut cpu = booted(&[
        ops::CMP_IMMEDIATE,
        0x06,
        ops::CMP_IMMEDIATE,
        0x07,
        ops::CMP_IMMEDIATE,
        0x01,
        ops::CPX_IMMEDIATE,
        0x00,
        ops::CPY_IMMEDIATE,
        0x80,
    ]);
    cpu.accu = 0x06;
    cpu.execute().unwrap();
    assert!(cpu.get_flag(STS_CAR_MASK));
    assert!(cpu.get_flag(STS_ZER_MASK));
    assert!(!cpu.get_flag(STS_NEG_MASK));
    cpu.execute().unwrap();
    assert!(!cpu.get_flag(STS_CAR_MASK));
    assert!(!cpu.get_flag(STS_ZER_MASK));
    assert!(cpu.get_flag(STS_NEG_MASK));
    // 0x80 is more than 0x01 unsigned, and the difference 0x7F is positive.
    cpu.accu = 0x80;
    cpu.execute().unwrap();
    assert!(cpu.get_flag(STS_CAR_MASK));
    assert!(!cpu.get_flag(STS_NEG_MASK));
    // 0xFF - 0x00 = 0xFF: carry and negative.
    cpu.idx_x = 0xFF;
    cpu.execute().unwrap();
    assert!(cpu.get_flag(STS_CAR_MASK));
    assert!(cpu.get_flag(STS_NEG_MASK));
    // 0x10 - 0x80 = 0x90 modulo 256: no carry, negative.
    cpu.idx_y = 0x10;
    cpu.execute().unwrap();
    assert!(!cpu.get_flag(STS_CAR_MASK));
    assert!(cpu.get_flag(STS_NEG_MASK));
    assert_eq!((cpu.accu, cpu.idx_x, cpu.idx_y), (0x80, 0xFF, 0x10));
}

#[test]
fn a_branch_counts_from_its_own_address() {
    let mut cpu = booted(&[ops::BNE_RELATIVE, 0x0A, ops::BNE_RELATIVE, 0x0A]);
    cpu.set_flag(true, STS_ZER_MASK);
    cpu.execute().unwrap();
    assert_eq!(cpu.pc(), 0x02);
    cpu.set_flag(false, STS_ZER_MASK);
    cpu.execute().unwrap();
    assert_eq!(cpu.pc(), 0x0C);
}

#[test]
fn a_branch_goes_backwards_on_a_negative_offset() {
    let mut cpu = booted(&[]);
    cpu.memory().write_u8(0x0200, ops::BCC_RELATIVE);
    cpu.memory().write_u8(0x0201, 0xFC);
    cpu.pc = 0x0200;
    cpu.execute().unwrap();
    assert_eq!(cpu.pc(), 0x01FC);
    cpu.memory().write_u8(0x0001, ops::BCC_RELATIVE);
    cpu.memory().write_u8(0x0002, 0x80);
    cpu.pc = 0x0001;
    cpu.execute().unwrap();
    assert_eq!(cpu.pc(), 0xFF81);
}

#[test]
fn call_and_return() {
    let mut cpu = booted(&[0x00, ops::JSR_ABSOLUTE, 0xA0, 0x01]);
    cpu.memory().write_u8(0x01A0, ops::RTS_IMPLIED);
    cpu.pc = 1;
    let sp = cpu.sp;
    cpu.execute().unwrap();
    assert_eq!(cpu.pc(), 0x01A0);
    assert_eq!(cpu.sp, sp.wrapping_sub(2));
    assert_eq!(cpu.memory().read_u8(0x0100 + sp as usize), 0x00);
    assert_eq!(cpu.memory().read_u8(0x0100 + sp as usize - 1), 0x03);
    cpu.execute().unwrap();
    assert_eq!(cpu.pc(), 0x0004);
    assert_eq!(cpu.sp, sp);
}

#[test]
fn an_interrupt_and_its_return() {
    let mut cpu = booted(&[]);
    cpu.set_int_req_addr(0x4000);
    cpu.memory().write_u8(0x4000, ops::RTI_IMPLIED);
    cpu.pc = 0x1234;
    cpu.set_flag(false, STS_INT_MASK);
    cpu.set_flag(true, STS_BRK_MASK);
    cpu.set_flag(true, STS_CAR_MASK);
    let status = cpu.status;
    let sp = cpu.sp;

    cpu.interrupt();
    assert_eq!(cpu.pc(), 0x4000);
    assert!(cpu.get_flag(STS_INT_MASK));
    assert!(!cpu.get_flag(STS_BRK_MASK));
    assert!(cpu.get_flag(STS_CAR_MASK));
    assert_eq!(cpu.sp, sp.wrapping_sub(3));
    assert_eq!(cpu.memory().read_u8(0x0100 + sp as usize), 0x12);
    assert_eq!(cpu.memory().read_u8(0x0100 + sp as usize - 1), 0x34);
    assert_eq!(cpu.memory().read_u8(0x0100 + sp as usize - 2), status);

    cpu.execute().unwrap();
    assert_eq!(cpu.pc(), 0x1234);
    assert_eq!(cpu.status, status);
    assert_eq!(cpu.sp, sp);
}

#[test]
fn an_interrupt_request_is_ignored_while_disabled() {
    let mut cpu = booted(&[]);
    cpu.set_int_req_addr(0x4000);
    cpu.pc = 0x1234;
    assert!(cpu.get_flag(STS_INT_MASK));
    let (status, sp) = (cpu.status, cpu.sp);
    cpu.interrupt();
    assert_eq!((cpu.pc(), cpu.status, cpu.sp), (0x1234, status, sp));
}

#[test]
fn a_non_maskable_interrupt_is_always_taken() {
    let mut cpu = booted(&[]);
    cpu.set_int_nomask_addr(0x5000);
    cpu.set_int_req_addr(0x4000);
    cpu.memory().write_u8(0x5000, ops::RTI_IMPLIED);
    cpu.pc = 0x1234;
    assert!(cpu.get_flag(STS_INT_MASK));
    let (status, sp) = (cpu.status, cpu.sp);
    cpu.non_maskable_interrupt();
    assert_eq!(cpu.pc(), 0x5000);
    assert!(cpu.get_flag(STS_INT_MASK));
    assert!(!cpu.get_flag(STS_BRK_MASK));
    cpu.execute().unwrap();
    assert_eq!((cpu.pc(), cpu.status, cpu.sp), (0x1234, status, sp));
    assert_eq!(cpu.memory().read_u16(INT_NOMASK_ADDRESS), 0x5000);
    assert_eq!(cpu.memory().read_u16(INT_REQ_ADDRESS), 0x4000);
}

#[test]
fn a_software_interrupt_returns_two_bytes_on() {
    let mut cpu = booted(&[ops::BRK_IMPLIED, 0x00, ops::NOP_IMPLIED]);
    cpu.set_int_req_addr(0x4000);
    cpu.memory().write_u8(0x4000, ops::RTI_IMPLIED);
    let status = cpu.status;
    cpu.execute().unwrap();
    assert_eq!(cpu.pc(), 0x4000);
    assert!(cpu.get_flag(STS_BRK_MASK));
    cpu.execute().unwrap();
    assert_eq!(cpu.pc(), 0x0002);
    assert_eq!(cpu.status, status);
}

#[test]
fn the_stack_is_last_in_first_out() {
    let mut cpu = booted(&[]);
    let sp = cpu.sp;
    cpu.push_u8(0xAB);
    assert_eq!(cpu.sp, sp.wrapping_sub(1));
    cpu.push_u16(0xBEEF);
    assert_eq!(cpu.sp, sp.wrapping_sub(3));
    assert_eq!(cpu.pop_u16(), 0xBEEF);
    assert_eq!(cpu.pop_u8(), 0xAB);
    assert_eq!(cpu.sp, sp);
}

#[test]
fn the_stack_pointer_wraps_inside_the_stack_page() {
    let mut cpu = booted(&[]);
    cpu.sp = 0x00;
    cpu.push_u16(0x1234);
    assert_eq!(cpu.sp, 0xFE);
    assert_eq!(cpu.memory().read_u8(0x0100), 0x12);
    assert_eq!(cpu.memory().read_u8(0x01FF), 0x34);
    assert_eq!(cpu.memory().read_u8(0x0200), 0x00);
    assert_eq!(cpu.pop_u16(), 0x1234);
    assert_eq!(cpu.sp, 0x00);
    cpu.sp = 0xFF;
    cpu.sp_inc();
    assert_eq!(cpu.sp, 0x00);
    cpu.sp_dec();
    assert_eq!(cpu.sp, 0xFF);
    for v in 0..=255u8 {
        cpu.sp = v;
        cpu.push_u8(v ^ 0x5A);
        assert_eq!(cpu.pop_u8(), v ^ 0x5A);
        assert_eq!(cpu.sp, v);
    }
}

#[test]
fn words_are_little_endian() {
    let mut ram = Ram8b64kB::new();
    ram.write_u16(0x1000, 0xBEEF);
    assert_eq!(ram.read_u8(0x1000), 0xEF);
    assert_eq!(ram.read_u8(0x1001), 0xBE);
    assert_eq!(ram.read_u16(0x1000), 0xBEEF);
    ram.write_u16(0xFFFE, 0x1234);
    assert_eq!(ram.read_u16(0xFFFE), 0x1234);
    ram.write_u16(0, 0xFF00);
    assert_eq!(ram.read_u16(0), 0xFF00);
    let rom = Rom8b::from_vec(vec![0x34, 0x12, 0xFF]);
    assert_eq!(rom.size(), 3);
    assert_eq!(rom.read_u16(0), 0x1234);
    assert_eq!(rom.read_u16(1), 0xFF12);
    assert_eq!(rom.read_u8(2), 0xFF);
}

#[test]
fn map_copies_a_block() {
    let mut ram = Ram8b64kB::new();
    ram.write_u8(0x0FFF, 0xAA);
    ram.write_u8(0x1003, 0xBB);
    ram.map(0x1000, &Rom8b::from_vec(vec![1, 2, 3]));
    assert_eq!(ram.read_u8(0x0FFF), 0xAA);
    assert_eq!(ram.read_u8(0x1000), 1);
    assert_eq!(ram.read_u8(0x1001), 2);
    assert_eq!(ram.read_u8(0x1002), 3);
    assert_eq!(ram.read_u8(0x1003), 0xBB);
    ram.map(0xFFFD, &Rom8b::from_vec(vec![7, 8, 9]));
    assert_eq!(ram.read_u8(0xFFFF), 9);
    ram.map(0, &Rom8b::from_vec(Vec::new()));
    assert_eq!(ram.read_u8(0), 0);
}

#[test]
fn an_unknown_opcode_is_fatal() {
    let mut cpu = booted(&[ops::INX_IMPLIED, 0x02, ops::INX_IMPLIED]);
    assert_eq!(cpu.execute(), Ok(()));
    let (status, sp, x) = (cpu.status, cpu.sp, cpu.idx_x);
    assert_eq!(cpu.execute(), Err(CpuError::UnknownOpcode(0x02)));
    assert_eq!(cpu.execute(), Err(CpuError::UnknownOpcode(0x02)));
    assert_eq!((cpu.pc(), cpu.status, cpu.sp, cpu.idx_x), (1, status, sp, x));
    assert_eq!(cpu.addr_mode, AddressMode::Implied);
    assert_eq!(cpu.run(10), Err(CpuError::UnknownOpcode(0x02)));
    assert_eq!((cpu.pc(), cpu.idx_x), (1, x));
}

#[test]
fn opcodes_of_the_tool_chain_without_a_handler_are_fatal() {
    let mut cpu = booted(&[ops::custom::TOS_ABSOLUTE, 0x00, 0x00]);
    assert_eq!(cpu.execute(), Err(CpuError::UnknownOpcode(ops::custom::TOS_ABSOLUTE)));
    assert_eq!(cpu.pc(), 0);
    let mut cpu = booted(&[ops::custom::VARIABLE, 0x00]);
    assert_eq!(cpu.execute(), Err(CpuError::UnknownOpcode(ops::custom::VARIABLE)));
    assert_eq!(cpu.pc(), 0);
}

#[test]
fn run_stops_before_the_first_failure() {
    let mut cpu = booted(&[ops::INX_IMPLIED, ops::INX_IMPLIED, 0x02, ops::INX_IMPLIED]);
    assert_eq!(cpu.run(2), Ok(()));
    assert_eq!((cpu.pc(), cpu.idx_x), (2, 2));
    let mut cpu = booted(&[ops::INX_IMPLIED, ops::INX_IMPLIED, 0x02, ops::INX_IMPLIED]);
    assert_eq!(cpu.run(5), Err(CpuError::UnknownOpcode(0x02)));
    assert_eq!((cpu.pc(), cpu.idx_x), (2, 2));
    assert_eq!(cpu.run(0), Ok(()));
}

#[test]
fn the_program_counter_moves_by_the_length_of_the_instruction() {
    let programs: [&[u8]; 5] = [
        &[ops::NOP_IMPLIED],
        &[ops::LDA_IMMEDIATE, 0x01],
        &[ops::LDA_ABSOLUTE, 0x00, 0x10],
        &[ops::ASL_ACCUMULATOR],
        &[ops::STA_INDIRECT_Y, 0x10],
    ];
    for program in programs.iter() {
        let mut cpu = booted(program);
        cpu.execute().unwrap();
        assert_eq!(cpu.pc(), pc_offset(&get_addr_mode(program[0])));
        assert_eq!(cpu.addr_mode, get_addr_mode(program[0]));
    }
}

#[test]
fn the_program_counter_wraps_at_the_end_of_memory() {
    let mut cpu = booted(&[0x42]);
    cpu.memory().write_u8(0xFFFF, ops::LDA_IMMEDIATE);
    cpu.pc = 0xFFFF;
    cpu.execute().unwrap();
    assert_eq!(cpu.accu, 0x42);
    assert_eq!(cpu.pc(), 0x0001);
}

#[test]
fn page_zero_addresses_wrap_inside_page_zero() {
    let mut cpu = booted(&[ops::LDA_ZERO_PAGE_X, 0xFF, ops::LDX_ZERO_PAGE_Y, 0x80]);
    cpu.memory().write_u8(0x0004, 0x77);
    cpu.memory().write_u8(0x0104, 0x11);
    cpu.idx_x = 0x05;
    cpu.execute().unwrap();
    assert_eq!(cpu.accu, 0x77);
    cpu.memory().write_u8(0x007F, 0x66);
    cpu.idx_y = 0xFF;
    cpu.execute().unwrap();
    assert_eq!(cpu.idx_x, 0x66);
}

#[test]
fn absolute_addresses_wrap_at_sixteen_bits() {
    let mut cpu = booted(&[ops::LDA_ABSOLUTE_X, 0xFF, 0xFF, 0x00, ops::LDA_ABSOLUTE_Y, 0xF0, 0xFF]);
    cpu.memory().write_u8(0x0003, 0x99);
    cpu.idx_x = 0x04;
    cpu.execute().unwrap();
    assert_eq!(cpu.accu, 0x99);
    cpu.pc = 4;
    cpu.memory().write_u8(0xFFFF, 0x55);
    cpu.idx_y = 0x0F;
    cpu.execute().unwrap();
    assert_eq!(cpu.accu, 0x55);
}

#[test]
fn indexed_indirect_wraps_its_pointer_modulo_256() {
    // Pointer byte 0xFF plus X = 1 is page zero address 0x00, not 0x0100
    // and not (0xFF + 1) % 0xFF = 0x01.
    let mut cpu = booted(&[0x00, 0x20, ops::LDA_INDIRECT_X, 0xFF]);
    cpu.memory().write_u8(0x0000, 0x00);
    cpu.memory().write_u8(0x0001, 0x20);
    cpu.memory().write_u8(0x2000, 0xC3);
    cpu.idx_x = 0x01;
    cpu.pc = 2;
    cpu.execute().unwrap();
    assert_eq!(cpu.accu, 0xC3);
    assert_eq!(cpu.pc(), 4);
}

#[test]
fn indirect_indexed_adds_y_to_the_pointer() {
    let mut cpu = booted(&[ops::LDA_INDIRECT_Y, 0x10, ops::STA_INDIRECT_Y, 0x10]);
    cpu.memory().write_u16(0x0010, 0x20F0);
    cpu.memory().write_u8(0x2100, 0x5D);
    cpu.idx_y = 0x10;
    cpu.execute().unwrap();
    assert_eq!(cpu.accu, 0x5D);
    cpu.idx_y = 0x11;
    cpu.execute().unwrap();
    assert_eq!(cpu.memory().read_u8(0x2101), 0x5D);
}

#[test]
fn an_indirect_jump_reads_its_target_from_memory() {
    let mut cpu = booted(&[ops::JMP_INDIRECT, 0xFF, 0xFF]);
    cpu.memory().write_u8(0xFFFF, 0x78);
    // The high byte of the word at 0xFFFF is the byte at 0x0000.
    cpu.execute().unwrap();
    assert_eq!(cpu.pc(), ((ops::JMP_INDIRECT as usize) << 8) | 0x78);
}

#[test]
fn shifts_and_rotates() {
    // An instruction on the accumulator occupies two bytes.
    let mut cpu = booted(&[
        ops::ASL_ACCUMULATOR,
        0x00,
        ops::LSR_ACCUMULATOR,
        0x00,
        ops::ROL_ACCUMULATOR,
        0x00,
        ops::ROR_ACCUMULATOR,
        0x00,
        ops::ROR_ACCUMULATOR,
        0x00,
    ]);
    cpu.accu = 0x81;
    cpu.execute().unwrap();
    assert_eq!(cpu.accu, 0x02);
    assert!(cpu.get_flag(STS_CAR_MASK));
    cpu.accu = 0x01;
    cpu.execute().unwrap();
    assert_eq!(cpu.accu, 0x00);
    assert!(cpu.get_flag(STS_CAR_MASK));
    assert!(cpu.get_flag(STS_ZER_MASK));
    cpu.accu = 0x80;
    cpu.execute().unwrap();
    assert_eq!(cpu.accu, 0x01);
    assert!(cpu.get_flag(STS_CAR_MASK));
    cpu.accu = 0x01;
    cpu.execute().unwrap();
    assert_eq!(cpu.accu, 0x80);
    assert!(cpu.get_flag(STS_CAR_MASK));
    assert!(cpu.get_flag(STS_NEG_MASK));
    cpu.set_flag(false, STS_CAR_MASK);
    cpu.accu = 0x02;
    cpu.execute().unwrap();
    assert_eq!(cpu.accu, 0x01);
    assert!(!cpu.get_flag(STS_CAR_MASK));
}

#[test]
fn increments_and_decrements_wrap() {
    let mut cpu = booted(&[
        ops::INX_IMPLIED,
        ops::DEY_IMPLIED,
        ops::INC_ZERO_PAGE,
        0x40,
        ops::DEC_ZERO_PAGE,
        0x41,
    ]);
    cpu.idx_x = 0xFF;
    cpu.execute().unwrap();
    assert_eq!(cpu.idx_x, 0x00);
    assert!(cpu.get_flag(STS_ZER_MASK));
    cpu.idx_y = 0x00;
    cpu.execute().unwrap();
    assert_eq!(cpu.idx_y, 0xFF);
    assert!(cpu.get_flag(STS_NEG_MASK));
    cpu.memory().write_u8(0x40, 0xFF);
    cpu.execute().unwrap();
    assert_eq!(cpu.memory().read_u8(0x40), 0x00);
    assert!(cpu.get_flag(STS_ZER_MASK));
    cpu.execute().unwrap();
    assert_eq!(cpu.memory().read_u8(0x41), 0xFF);
    assert!(cpu.get_flag(STS_NEG_MASK));
}

#[test]
fn pulling_the_accumulator_sets_zero_and_negative() {
    let mut cpu = booted(&[ops::PLA_IMPLIED, ops::PLA_IMPLIED]);
    cpu.push_u8(0x00);
    cpu.push_u8(0x80);
    cpu.execute().unwrap();
    assert_eq!(cpu.accu, 0x80);
    assert!(cpu.get_flag(STS_NEG_MASK));
    assert!(!cpu.get_flag(STS_ZER_MASK));
    cpu.execute().unwrap();
    assert_eq!(cpu.accu, 0x00);
    assert!(!cpu.get_flag(STS_NEG_MASK));
    assert!(cpu.get_flag(STS_ZER_MASK));
}

#[test]
fn text_is_emitted_up_to_its_zero_byte() {
    let mut cpu = booted(&[ops::custom::PRT_ABSOLUTE, 0x00, 0x30, ops::custom::PRT_ABSOLUTE, 0x02, 0x30]);
    cpu.memory().write_u8(0x3000, b'H');
    cpu.memory().write_u8(0x3001, b'I');
    cpu.memory().write_u8(0x3002, 0x00);
    cpu.execute().unwrap();
    assert_eq!(cpu.pc(), 3);
    cpu.execute().unwrap();
    assert_eq!(cpu.pc(), 6);
    assert_eq!(cpu.take_output(), vec![b'H', b'I', 0x00, 0x00]);
    assert_eq!(cpu.take_output(), Vec::<u8>::new());
}

#[test]
fn text_without_a_zero_byte_is_an_error() {
    let mut cpu = booted(&[ops::custom::PRT_ABSOLUTE, 0xFE, 0xFF]);
    cpu.memory().write_u8(0xFFFE, 0x41);
    cpu.memory().write_u8(0xFFFF, 0x42);
    assert_eq!(cpu.execute(), Err(CpuError::UnterminatedText(0xFFFE)));
    assert_eq!(cpu.pc(), 0);
    assert_eq!(cpu.take_output(), Vec::<u8>::new());
}

#[test]
fn the_dump_lists_the_stack_from_the_top_down() {
    let mut cpu = booted(&[]);
    assert_eq!(cpu.sp, 0xFD);
    cpu.memory().write_u8(0x01FF, 0x11);
    cpu.memory().write_u8(0x01FE, 0x22);
    cpu.push_u8(0x33);
    cpu.accu = 0x44;
    let dump = cpu.dump();
    assert_eq!(dump.pc, 0);
    assert_eq!(dump.sp, 0x01FC);
    assert_eq!(dump.accu, 0x44);
    assert_eq!(dump.status, cpu.status);
    assert_eq!(dump.stack_base, 0x0100);
    assert_eq!(dump.stack_top, 0x01FF);
    assert_eq!(dump.stack, vec![(0x01FF, 0x11), (0x01FE, 0x22), (0x01FD, 0x33)]);
    cpu.sp = 0xFF;
    assert_eq!(cpu.dump().stack, Vec::<(usize, u8)>::new());
}

#[test]
fn operands_as_text() {
    assert_eq!(addr_mode_to_operand(&AddressMode::Immediate, 0x5A, 0), "#$5A");
    assert_eq!(addr_mode_to_operand(&AddressMode::Absolute, 0, 0x12A3), "$12A3");
    assert_eq!(addr_mode_to_operand(&AddressMode::ZeroPage, 0x0F, 0), "*$0F");
    assert_eq!(addr_mode_to_operand(&AddressMode::AbsoluteX, 0, 0x00FF), "$00FF, X");
    assert_eq!(addr_mode_to_operand(&AddressMode::ZeroPageX, 0xC9, 0), "*$C9, X");
    assert_eq!(addr_mode_to_operand(&AddressMode::AbsoluteY, 0, 0xFFFF), "$FFFF, Y");
    assert_eq!(addr_mode_to_operand(&AddressMode::ZeroPageY, 0x00, 0), "*$00, Y");
    assert_eq!(addr_mode_to_operand(&AddressMode::Indirect, 0, 0xABBA), "($ABBA)");
    assert_eq!(addr_mode_to_operand(&AddressMode::IndirectX, 0x12, 0), "($12, X)");
    assert_eq!(addr_mode_to_operand(&AddressMode::IndirectY, 0x12, 0), "($12), Y");
    assert_eq!(addr_mode_to_operand(&AddressMode::Relative, 0x0A, 0), "$0A");
    assert_eq!(addr_mode_to_operand(&AddressMode::Accumulator, 1, 2), "A");
    assert_eq!(addr_mode_to_operand(&AddressMode::Implied, 1, 2), "");
    assert_eq!(addr_mode_to_operand(&AddressMode::Label, 1, 2), "");
    assert_eq!(addr_mode_to_operand(&AddressMode::Undefined, 1, 2), "");
}

#[test]
fn instructions_as_text() {
    let rom = Rom8b::from_vec(vec![
        ops::LDA_IMMEDIATE,
        0x01,
        ops::JSR_ABSOLUTE,
        0x34,
        0x12,
        ops::NOP_IMPLIED,
        0x02,
        ops::LDA_ABSOLUTE,
        0x10,
    ]);
    let mut idx = 0;
    assert_eq!(op_to_str(&rom, &mut idx), "LDA #$01");
    assert_eq!(idx, 2);
    assert_eq!(op_to_str(&rom, &mut idx), "JSR $1234");
    assert_eq!(idx, 5);
    assert_eq!(op_to_str(&rom, &mut idx), "NOP");
    assert_eq!(idx, 6);
    assert_eq!(op_to_str(&rom, &mut idx), "UNKNOWN");
    assert_eq!(idx, 7);
    // The operand word runs over the end of the image and reads as 0.
    assert_eq!(op_to_str(&rom, &mut idx), "LDA $0000");
    assert_eq!(idx, 10);
}

#[test]
fn a_listing_passes_over_variable_data() {
    let rom = Rom8b::from_vec(vec![
        ops::JMP_ABSOLUTE,
        0x07,
        0x00,
        ops::custom::VARIABLE,
        0x02,
        0xAA,
        0xBB,
        ops::RTS_IMPLIED,
    ]);
    let lines = disassemble(&rom);
    assert_eq!(
        lines,
        vec![
            (0, "JMP $0007".to_string()),
            (3, "VAR #$02".to_string()),
            (7, "RTS".to_string()),
        ]
    );
    assert_eq!(disassemble(&Rom8b::from_vec(Vec::new())), Vec::<(usize, String)>::new());
    assert_eq!(
        disassemble(&Rom8b::from_vec(vec![ops::custom::VARIABLE])),
        vec![(0, "VAR #$00".to_string())]
    );
}
