//! The processor as mathematics: its state as a plain value and each
//! instruction as a function from state to state. The contracts of the
//! engine are stated over these functions.

use vstd::prelude::*;
use crate::cpus::mcs6502::{
    CpuError, INT_NOMASK_ADDRESS, INT_REQ_ADDRESS, PC_INIT_ADDRESS, ROM_MAP_ADDRESS,
    STACK_BASE_ADDRESS, STACK_START_VALUE, STS_BRK_MASK, STS_CAR_MASK, STS_DEC_MASK, STS_INT_MASK,
    STS_NEG_MASK, STS_OVF_MASK, STS_ZER_MASK,
};
use crate::inst::mcs6502::addr::{addr_mode_of, instruction_len};
use crate::inst::mcs6502::{mnemonic_of, AddressMode, Mnemonic};
use crate::mems::overlay;
use crate::util::{high_byte, low_byte, word_of};

verus! {

/// The number of cells that the processor addresses.
pub open spec fn address_space() -> int {
    0x10000
}

/// Everything that an instruction can read or change.
pub struct Machine {
    /// The cells of memory, one for each 16-bit address.
    pub mem: Seq<u8>,
    /// The address of the next instruction.
    pub pc: u16,
    /// The stack pointer: the stack's next free cell is `0x0100 + sp`.
    pub sp: u8,
    /// Index register X.
    pub idx_x: u8,
    /// Index register Y.
    pub idx_y: u8,
    /// The accumulator.
    pub accu: u8,
    /// The status flags, one bit each.
    pub status: u8,
    /// The addressing mode of the instruction decoded last.
    pub addr_mode: AddressMode,
    /// The bytes that the program has emitted so far.
    pub output: Seq<u8>,
}

impl Machine {
    /// Whether memory covers the whole address space.
    pub open spec fn valid(self) -> bool {
        self.mem.len() == address_space()
    }
}

// ---------------------------------------------------------------------
// Numbers
// ---------------------------------------------------------------------

/// `n` reduced modulo 256.
pub open spec fn wrap8(n: int) -> u8 {
    (n % 0x100) as u8
}

/// `n` reduced modulo 65536.
pub open spec fn wrap16(n: int) -> u16 {
    (n % 0x10000) as u16
}

/// `byte` read as a two's-complement number.
pub open spec fn signed(byte: u8) -> int {
    if byte >= 0x80 {
        byte - 0x100
    } else {
        byte as int
    }
}

// ---------------------------------------------------------------------
// Flags
// ---------------------------------------------------------------------

/// Whether any bit of `mask` is set in `status`.
pub open spec fn flag(status: u8, mask: u8) -> bool {
    status & mask > 0
}

/// `status` with the bits of `mask` set if `on`, cleared otherwise.
pub open spec fn with_flag(status: u8, mask: u8, on: bool) -> u8 {
    if on {
        status | mask
    } else {
        status & !mask
    }
}

/// `status` with Negative and Zero set from the result byte `value`:
/// Negative is bit 7 of it, Zero says whether it is 0.
pub open spec fn with_zn(status: u8, value: u8) -> u8 {
    with_flag(with_flag(status, STS_NEG_MASK, value >= 0x80), STS_ZER_MASK, value == 0)
}

/// 1 if Carry is set in `status`, else 0.
pub open spec fn carry_in(status: u8) -> int {
    if flag(status, STS_CAR_MASK) {
        1
    } else {
        0
    }
}

// ---------------------------------------------------------------------
// Memory and operands
// ---------------------------------------------------------------------

/// The cell at `addr`.
pub open spec fn cell(mem: Seq<u8>, addr: u16) -> u8 {
    mem[addr as int]
}

/// The little-endian word at `addr`; the address after `0xFFFF` is `0`.
pub open spec fn word(mem: Seq<u8>, addr: u16) -> u16 {
    word_of(mem[addr as int], mem[wrap16(addr + 1) as int])
}

/// The byte that follows the opcode.
pub open spec fn immediate(s: Machine) -> u8 {
    cell(s.mem, wrap16(s.pc + 1))
}

/// The word that follows the opcode.
pub open spec fn immediate_word(s: Machine) -> u16 {
    word(s.mem, wrap16(s.pc + 1))
}

/// The address of the operand, for the modes whose operand lies in memory.
pub open spec fn data_addr(s: Machine) -> Option<u16> {
    match s.addr_mode {
        AddressMode::ZeroPage => Some(immediate(s) as u16),
        AddressMode::ZeroPageX => Some(wrap8(immediate(s) + s.idx_x) as u16),
        AddressMode::ZeroPageY => Some(wrap8(immediate(s) + s.idx_y) as u16),
        AddressMode::Absolute => Some(immediate_word(s)),
        AddressMode::AbsoluteX => Some(wrap16(immediate_word(s) + s.idx_x)),
        AddressMode::AbsoluteY => Some(wrap16(immediate_word(s) + s.idx_y)),
        AddressMode::IndirectX => Some(word(s.mem, wrap8(immediate(s) + s.idx_x) as u16)),
        AddressMode::IndirectY => Some(wrap16(word(s.mem, immediate(s) as u16) + s.idx_y)),
        _ => None,
    }
}

/// The value that the instruction reads. A mode without an operand reads 0.
pub open spec fn operand(s: Machine) -> u8 {
    match s.addr_mode {
        AddressMode::Immediate | AddressMode::Relative => immediate(s),
        AddressMode::Accumulator => s.accu,
        _ => match data_addr(s) {
            Some(addr) => cell(s.mem, addr),
            None => 0,
        },
    }
}

/// The state after the instruction has written `value` back to where its
/// operand came from. A mode without a place to write changes nothing.
pub open spec fn store(s: Machine, value: u8) -> Machine {
    match s.addr_mode {
        AddressMode::Accumulator => Machine { accu: value, ..s },
        _ => match data_addr(s) {
            Some(addr) => Machine { mem: s.mem.update(addr as int, value), ..s },
            None => s,
        },
    }
}

/// Where a jump goes: the word after the opcode, or for an indirect jump
/// the word stored there.
pub open spec fn jump_target(s: Machine) -> u16 {
    if s.addr_mode == AddressMode::Indirect {
        word(s.mem, immediate_word(s))
    } else {
        immediate_word(s)
    }
}

/// The state with the program counter moved past the current instruction.
pub open spec fn advance(s: Machine) -> Machine {
    Machine { pc: wrap16(s.pc + instruction_len(s.addr_mode)), ..s }
}

// ---------------------------------------------------------------------
// Stack
// ---------------------------------------------------------------------

/// The address of the stack cell that `sp` names.
pub open spec fn stack_addr(sp: u8) -> int {
    STACK_BASE_ADDRESS + sp
}

/// Pushing a byte: write it at the stack pointer, then move the pointer
/// down by one, from `0x00` round to `0xFF`.
pub open spec fn push8(s: Machine, value: u8) -> Machine {
    Machine { mem: s.mem.update(stack_addr(s.sp), value), sp: wrap8(s.sp - 1), ..s }
}

/// The byte that a pull would return.
pub open spec fn top8(s: Machine) -> u8 {
    s.mem[stack_addr(wrap8(s.sp + 1))]
}

/// The state after a pull: the pointer moved up by one, from `0xFF` round
/// to `0x00`.
pub open spec fn drop8(s: Machine) -> Machine {
    Machine { sp: wrap8(s.sp + 1), ..s }
}

/// Pushing a word: the high byte first, then the low byte.
pub open spec fn push16(s: Machine, value: u16) -> Machine {
    push8(push8(s, high_byte(value)), low_byte(value))
}

/// The word that pulling two bytes would return, the low byte first.
pub open spec fn top16(s: Machine) -> u16 {
    word_of(top8(s), top8(drop8(s)))
}

/// The state after a word has been pulled.
pub open spec fn drop16(s: Machine) -> Machine {
    drop8(drop8(s))
}

// ---------------------------------------------------------------------
// Arithmetic and logic
// ---------------------------------------------------------------------

/// The state with `status` replaced.
pub open spec fn with_status(s: Machine, status: u8) -> Machine {
    Machine { status, ..s }
}

/// ADC in binary mode: the accumulator becomes accumulator + memory + Carry
/// modulo 256. Carry is the unsigned carry out, Overflow says that the sum
/// of the signed values left the range -128 ..= 127.
pub open spec fn adc(s: Machine, m: u8) -> Machine {
    let sum = s.accu + m + carry_in(s.status);
    let signed_sum = signed(s.accu) + signed(m) + carry_in(s.status);
    let result = wrap8(sum);
    let st1 = with_flag(s.status, STS_CAR_MASK, sum > 0xFF);
    let st2 = with_flag(st1, STS_OVF_MASK, signed_sum > 127 || signed_sum < -128);
    Machine { accu: result, status: with_zn(st2, result), ..s }
}

/// SBC in binary mode: the accumulator becomes accumulator - memory -
/// (1 - Carry) modulo 256. Carry is set when nothing was borrowed, Overflow
/// says that the difference of the signed values left the range
/// -128 ..= 127.
pub open spec fn sbc(s: Machine, m: u8) -> Machine {
    let diff = s.accu - m - (1 - carry_in(s.status));
    let signed_diff = signed(s.accu) - signed(m) - (1 - carry_in(s.status));
    let result = wrap8(diff);
    let st1 = with_flag(s.status, STS_CAR_MASK, diff >= 0);
    let st2 = with_flag(st1, STS_OVF_MASK, signed_diff > 127 || signed_diff < -128);
    Machine { accu: result, status: with_zn(st2, result), ..s }
}

/// The status after comparing `register` with `m`: Carry says
/// `register >= m` unsigned, Zero says they are equal, Negative is bit 7 of
/// `register - m` modulo 256.
pub open spec fn compared(status: u8, register: u8, m: u8) -> u8 {
    with_zn(with_flag(status, STS_CAR_MASK, register >= m), wrap8(register - m))
}

/// AND: accumulator and memory, bit by bit.
pub open spec fn and(s: Machine, m: u8) -> Machine {
    let result = s.accu & m;
    Machine { accu: result, status: with_zn(s.status, result), ..s }
}

/// ORA: accumulator or memory, bit by bit.
pub open spec fn ora(s: Machine, m: u8) -> Machine {
    let result = s.accu | m;
    Machine { accu: result, status: with_zn(s.status, result), ..s }
}

/// EOR: accumulator exclusive-or memory, bit by bit.
pub open spec fn eor(s: Machine, m: u8) -> Machine {
    let result = s.accu ^ m;
    Machine { accu: result, status: with_zn(s.status, result), ..s }
}

/// BIT: Negative and Overflow are bits 7 and 6 of memory, Zero says that
/// accumulator and memory share no bit.
pub open spec fn bit(s: Machine, m: u8) -> Machine {
    let st1 = with_flag(s.status, STS_NEG_MASK, m & STS_NEG_MASK > 0);
    let st2 = with_flag(st1, STS_OVF_MASK, m & STS_OVF_MASK > 0);
    with_status(s, with_flag(st2, STS_ZER_MASK, s.accu & m == 0))
}

/// ASL: the operand doubled modulo 256; Carry is the bit shifted out.
pub open spec fn asl(s: Machine, m: u8) -> Machine {
    let result = wrap8(m * 2);
    let st = with_zn(with_flag(s.status, STS_CAR_MASK, m >= 0x80), result);
    store(with_status(s, st), result)
}

/// LSR: the operand halved; Carry is the bit shifted out.
pub open spec fn lsr(s: Machine, m: u8) -> Machine {
    let result = (m / 2) as u8;
    let st = with_zn(with_flag(s.status, STS_CAR_MASK, m % 2 == 1), result);
    store(with_status(s, st), result)
}

/// ROL: the operand doubled modulo 256 with the old Carry as bit 0; Carry
/// is the bit shifted out.
pub open spec fn rol(s: Machine, m: u8) -> Machine {
    let result = wrap8(m * 2 + carry_in(s.status));
    let st = with_zn(with_flag(s.status, STS_CAR_MASK, m >= 0x80), result);
    store(with_status(s, st), result)
}

/// ROR: the operand halved with the old Carry as bit 7; Carry is the bit
/// shifted out.
pub open spec fn ror(s: Machine, m: u8) -> Machine {
    let result = (m / 2 + 0x80 * carry_in(s.status)) as u8;
    let st = with_zn(with_flag(s.status, STS_CAR_MASK, m % 2 == 1), result);
    store(with_status(s, st), result)
}

/// INC: the operand plus one modulo 256.
pub open spec fn inc(s: Machine, m: u8) -> Machine {
    let result = wrap8(m + 1);
    store(with_status(s, with_zn(s.status, result)), result)
}

/// DEC: the operand minus one modulo 256.
pub open spec fn dec(s: Machine, m: u8) -> Machine {
    let result = wrap8(m - 1);
    store(with_status(s, with_zn(s.status, result)), result)
}

/// The state with `value` in the accumulator and Zero and Negative set
/// from it.
pub open spec fn load_a(s: Machine, value: u8) -> Machine {
    Machine { accu: value, status: with_zn(s.status, value), ..s }
}

/// The state with `value` in X and Zero and Negative set from it.
pub open spec fn load_x(s: Machine, value: u8) -> Machine {
    Machine { idx_x: value, status: with_zn(s.status, value), ..s }
}

/// The state with `value` in Y and Zero and Negative set from it.
pub open spec fn load_y(s: Machine, value: u8) -> Machine {
    Machine { idx_y: value, status: with_zn(s.status, value), ..s }
}

// ---------------------------------------------------------------------
// Control flow
// ---------------------------------------------------------------------

/// A branch: if `cond` holds the program counter moves by the signed
/// `offset` from the branch instruction, else past the instruction.
pub open spec fn branch(s: Machine, cond: bool, offset: u8) -> Machine {
    if cond {
        Machine { pc: wrap16(s.pc + signed(offset)), ..s }
    } else {
        advance(s)
    }
}

/// JMP: the program counter becomes the jump target. In a mode that JMP
/// does not have the instruction is passed over.
pub open spec fn jmp(s: Machine) -> Machine {
    if s.addr_mode == AddressMode::Absolute || s.addr_mode == AddressMode::Indirect {
        Machine { pc: jump_target(s), ..s }
    } else {
        advance(s)
    }
}

/// JSR: push the address of the instruction's last byte, then jump.
pub open spec fn jsr(s: Machine) -> Machine {
    Machine { pc: immediate_word(s), ..push16(s, wrap16(s.pc + 2)) }
}

/// RTS: pull an address and go on at the byte after it.
pub open spec fn rts(s: Machine) -> Machine {
    Machine { pc: wrap16(top16(s) + 1), ..drop16(s) }
}

/// RTI: pull the status, then pull the program counter.
pub open spec fn rti(s: Machine) -> Machine {
    let s1 = drop8(s);
    Machine { pc: top16(s1), status: top8(s), ..drop16(s1) }
}

/// Entering an interrupt handler: push `return_to`, push the status, then
/// take the new status and go to the address stored at `vector`.
pub open spec fn enter(s: Machine, return_to: u16, status: u8, vector: u16) -> Machine {
    let pushed = push8(push16(s, return_to), s.status);
    Machine { pc: word(pushed.mem, vector), status, ..pushed }
}

/// BRK: enter the handler of the interrupt request vector with Break set;
/// the address pushed is two bytes after the opcode.
pub open spec fn brk(s: Machine) -> Machine {
    enter(s, wrap16(s.pc + 2), with_flag(s.status, STS_BRK_MASK, true), INT_REQ_ADDRESS as u16)
}

/// The status that the processor takes on entering a hardware interrupt:
/// Break clear, Interrupt-Disable set.
pub open spec fn interrupt_status(status: u8) -> u8 {
    with_flag(with_flag(status, STS_BRK_MASK, false), STS_INT_MASK, true)
}

/// An interrupt request: ignored while Interrupt-Disable is set.
pub open spec fn irq(s: Machine) -> Machine {
    if flag(s.status, STS_INT_MASK) {
        s
    } else {
        enter(s, s.pc, interrupt_status(s.status), INT_REQ_ADDRESS as u16)
    }
}

/// A non-maskable interrupt.
pub open spec fn nmi(s: Machine) -> Machine {
    enter(s, s.pc, interrupt_status(s.status), INT_NOMASK_ADDRESS as u16)
}

/// A reset: the accumulator and the index registers cleared, the stack
/// pointer two cells below the top of the stack page, Interrupt-Disable
/// set, the program counter taken from the reset vector.
pub open spec fn reset(s: Machine) -> Machine {
    Machine {
        accu: 0,
        idx_x: 0,
        idx_y: 0,
        pc: word(s.mem, PC_INIT_ADDRESS as u16),
        sp: (STACK_START_VALUE - 2) as u8,
        status: with_flag(s.status, STS_INT_MASK, true),
        ..s
    }
}

/// Booting from `image`: copy it to the start of memory, then reset. The
/// reset vector is read after the copy, so an image that reaches up to
/// the vectors brings its own.
pub open spec fn boot(s: Machine, image: Seq<u8>) -> Machine {
    reset(Machine { mem: overlay(s.mem, ROM_MAP_ADDRESS as int, image), ..s })
}

// ---------------------------------------------------------------------
// Text output
// ---------------------------------------------------------------------

/// Whether a zero byte lies in `mem` at or after `from`.
pub open spec fn terminated(mem: Seq<u8>, from: int) -> bool {
    exists|k: int| from <= k < mem.len() && mem[k] == 0
}

/// The number of bytes from `from` to the first zero byte, that byte
/// included; if there is none, the number of bytes to the end of memory.
pub open spec fn text_len(mem: Seq<u8>, from: int) -> int
    decreases mem.len() - from,
{
    if from < 0 || from >= mem.len() {
        0
    } else if mem[from] == 0 {
        1
    } else {
        1 + text_len(mem, from + 1)
    }
}

/// The zero-terminated text at `from`, its zero byte included.
pub open spec fn text_at(mem: Seq<u8>, from: int) -> Seq<u8> {
    mem.subrange(from, from + text_len(mem, from))
}

/// Whether the operand address of PRT holds a zero-terminated text.
pub open spec fn has_text(s: Machine) -> bool {
    terminated(s.mem, immediate_word(s) as int)
}

/// PRT: append the text at the operand address to the output.
pub open spec fn prt(s: Machine) -> Machine {
    Machine { output: s.output + text_at(s.mem, immediate_word(s) as int), ..s }
}

// ---------------------------------------------------------------------
// One instruction
// ---------------------------------------------------------------------

/// The state once the opcode at the program counter has been decoded: its
/// addressing mode is recorded.
pub open spec fn decoded(s: Machine) -> Machine {
    Machine { addr_mode: addr_mode_of(cell(s.mem, s.pc)), ..s }
}

/// What `mnemonic` does to the decoded state `d`, the program counter
/// included; or why it cannot be done.
#[verifier::opaque]
pub open spec fn perform(d: Machine, mnemonic: Mnemonic) -> Result<Machine, CpuError> {
    let m = operand(d);
    match mnemonic {
        Mnemonic::Adc => if flag(d.status, STS_DEC_MASK) {
            Err(CpuError::DecimalMode)
        } else {
            Ok(advance(adc(d, m)))
        },
        Mnemonic::Sbc => if flag(d.status, STS_DEC_MASK) {
            Err(CpuError::DecimalMode)
        } else {
            Ok(advance(sbc(d, m)))
        },
        Mnemonic::And => Ok(advance(and(d, m))),
        Mnemonic::Ora => Ok(advance(ora(d, m))),
        Mnemonic::Eor => Ok(advance(eor(d, m))),
        Mnemonic::Bit => Ok(advance(bit(d, m))),
        Mnemonic::Asl => Ok(advance(asl(d, m))),
        Mnemonic::Lsr => Ok(advance(lsr(d, m))),
        Mnemonic::Rol => Ok(advance(rol(d, m))),
        Mnemonic::Ror => Ok(advance(ror(d, m))),
        Mnemonic::Inc => Ok(advance(inc(d, m))),
        Mnemonic::Dec => Ok(advance(dec(d, m))),
        Mnemonic::Inx => Ok(advance(load_x(d, wrap8(d.idx_x + 1)))),
        Mnemonic::Iny => Ok(advance(load_y(d, wrap8(d.idx_y + 1)))),
        Mnemonic::Dex => Ok(advance(load_x(d, wrap8(d.idx_x - 1)))),
        Mnemonic::Dey => Ok(advance(load_y(d, wrap8(d.idx_y - 1)))),
        Mnemonic::Cmp => Ok(advance(with_status(d, compared(d.status, d.accu, m)))),
        Mnemonic::Cpx => Ok(advance(with_status(d, compared(d.status, d.idx_x, m)))),
        Mnemonic::Cpy => Ok(advance(with_status(d, compared(d.status, d.idx_y, m)))),
        Mnemonic::Lda => Ok(advance(load_a(d, m))),
        Mnemonic::Ldx => Ok(advance(load_x(d, m))),
        Mnemonic::Ldy => Ok(advance(load_y(d, m))),
        Mnemonic::Sta => Ok(advance(store(d, d.accu))),
        Mnemonic::Stx => Ok(advance(store(d, d.idx_x))),
        Mnemonic::Sty => Ok(advance(store(d, d.idx_y))),
        Mnemonic::Tax => Ok(advance(load_x(d, d.accu))),
        Mnemonic::Tay => Ok(advance(load_y(d, d.accu))),
        Mnemonic::Tya => Ok(advance(load_a(d, d.idx_y))),
        Mnemonic::Tsx => Ok(advance(load_x(d, d.sp))),
        Mnemonic::Txa => Ok(advance(load_a(d, d.idx_x))),
        Mnemonic::Txs => Ok(advance(Machine { sp: d.idx_x, ..d })),
        Mnemonic::Pha => Ok(advance(push8(d, d.accu))),
        Mnemonic::Php => Ok(advance(push8(d, d.status))),
        Mnemonic::Pla => Ok(advance(load_a(drop8(d), top8(d)))),
        Mnemonic::Plp => Ok(advance(with_status(drop8(d), top8(d)))),
        Mnemonic::Clc => Ok(advance(with_status(d, with_flag(d.status, STS_CAR_MASK, false)))),
        Mnemonic::Cld => Ok(advance(with_status(d, with_flag(d.status, STS_DEC_MASK, false)))),
        Mnemonic::Cli => Ok(advance(with_status(d, with_flag(d.status, STS_INT_MASK, false)))),
        Mnemonic::Clv => Ok(advance(with_status(d, with_flag(d.status, STS_OVF_MASK, false)))),
        Mnemonic::Sec => Ok(advance(with_status(d, with_flag(d.status, STS_CAR_MASK, true)))),
        Mnemonic::Sed => Ok(advance(with_status(d, with_flag(d.status, STS_DEC_MASK, true)))),
        Mnemonic::Sei => Ok(advance(with_status(d, with_flag(d.status, STS_INT_MASK, true)))),
        Mnemonic::Nop => Ok(advance(d)),
        Mnemonic::Bcc => Ok(branch(d, !flag(d.status, STS_CAR_MASK), m)),
        Mnemonic::Bcs => Ok(branch(d, flag(d.status, STS_CAR_MASK), m)),
        Mnemonic::Beq => Ok(branch(d, flag(d.status, STS_ZER_MASK), m)),
        Mnemonic::Bne => Ok(branch(d, !flag(d.status, STS_ZER_MASK), m)),
        Mnemonic::Bmi => Ok(branch(d, flag(d.status, STS_NEG_MASK), m)),
        Mnemonic::Bpl => Ok(branch(d, !flag(d.status, STS_NEG_MASK), m)),
        Mnemonic::Bvc => Ok(branch(d, !flag(d.status, STS_OVF_MASK), m)),
        Mnemonic::Bvs => Ok(branch(d, flag(d.status, STS_OVF_MASK), m)),
        Mnemonic::Jmp => Ok(jmp(d)),
        Mnemonic::Jsr => Ok(jsr(d)),
        Mnemonic::Rts => Ok(rts(d)),
        Mnemonic::Rti => Ok(rti(d)),
        Mnemonic::Brk => Ok(brk(d)),
        Mnemonic::Prt => if has_text(d) {
            Ok(advance(prt(d)))
        } else {
            Err(CpuError::UnterminatedText(immediate_word(d)))
        },
        Mnemonic::Tos | Mnemonic::Var => Err(CpuError::UnknownOpcode(cell(d.mem, d.pc))),
    }
}

/// Whether the engine has a handler for `opcode`.
pub open spec fn has_handler(opcode: u8) -> bool {
    match mnemonic_of(opcode) {
        Some(Mnemonic::Tos) | Some(Mnemonic::Var) | None => false,
        Some(_) => true,
    }
}

/// One step of the engine: decode the opcode at the program counter and
/// perform it. A byte that is no instruction is an error.
pub open spec fn step(s: Machine) -> Result<Machine, CpuError> {
    match mnemonic_of(cell(s.mem, s.pc)) {
        Some(mnemonic) => perform(decoded(s), mnemonic),
        None => Err(CpuError::UnknownOpcode(cell(s.mem, s.pc))),
    }
}

/// The state after up to `count` steps: the first step that fails is not
/// taken and ends the run.
pub open spec fn run(s: Machine, count: nat) -> Machine
    decreases count,
{
    if count == 0 {
        s
    } else {
        match step(s) {
            Ok(next) => run(next, (count - 1) as nat),
            Err(_) => s,
        }
    }
}

/// The error that ends a run of up to `count` steps, if one does.
pub open spec fn run_error(s: Machine, count: nat) -> Option<CpuError>
    decreases count,
{
    if count == 0 {
        None
    } else {
        match step(s) {
            Ok(next) => run_error(next, (count - 1) as nat),
            Err(e) => Some(e),
        }
    }
}

} // verus!
