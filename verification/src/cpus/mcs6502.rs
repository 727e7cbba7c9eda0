//! The MCS 6502 execution engine: registers, stack, operand resolution,
//! the instructions and the interrupts.

use vstd::prelude::*;
use crate::cpus::mcs6502::model::{
    address_space, flag, stack_addr, text_at, text_len, with_flag, Machine,
};
use crate::cpus::{Cpu, Stack};
use crate::inst::mcs6502::addr::{get_addr_mode, pc_offset};
use crate::inst::mcs6502::{get_mnemonic, AddressMode, Mnemonic};
use crate::mems::{Memory, Readable};
use crate::util::to_u16;

pub mod laws;
pub mod model;

verus! {

/// Where the interrupt vectors start.
pub const INT_VECTOR_START: usize = 0xFFFA;

/// The address that holds the address of the interrupt request handler.
pub const INT_REQ_ADDRESS: usize = 0xFFFE;

/// The address that holds the address of the non-maskable interrupt
/// handler.
pub const INT_NOMASK_ADDRESS: usize = 0xFFFA;

/// The address that holds the program counter's value after a reset.
pub const PC_INIT_ADDRESS: usize = 0xFFFC;

/// Where a program image is copied to.
pub const ROM_MAP_ADDRESS: usize = 0x0000;

/// The address of the first cell of the stack page.
pub const STACK_BASE_ADDRESS: usize = 0x0100;

/// The stack pointer of an empty stack.
pub const STACK_START_VALUE: u8 = 0xFF;

/// Status bit 0: Carry.
pub const STS_CAR_MASK: u8 = 0x01;

/// Status bit 1: Zero.
pub const STS_ZER_MASK: u8 = 0x02;

/// Status bit 2: Interrupt-Disable.
pub const STS_INT_MASK: u8 = 0x04;

/// Status bit 3: Decimal.
pub const STS_DEC_MASK: u8 = 0x08;

/// Status bit 4: Break.
pub const STS_BRK_MASK: u8 = 0x10;

/// Status bit 6: Overflow.
pub const STS_OVF_MASK: u8 = 0x40;

/// Status bit 7: Negative.
pub const STS_NEG_MASK: u8 = 0x80;

/// Why the engine cannot execute the instruction at the program counter.
#[derive(Debug, PartialEq, Eq, Structural, Clone, Copy)]
pub enum CpuError {
    /// The byte at the program counter, given here, has no handler.
    UnknownOpcode(u8),
    /// ADC or SBC while the Decimal flag is set: the engine does binary
    /// arithmetic only.
    DecimalMode,
    /// PRT of a text, starting at the address given here, that runs to the
    /// end of memory without a zero byte.
    UnterminatedText(u16),
}

/// The registers and the stack, copied out for a diagnostic listing.
pub struct CpuDump {
    /// The program counter.
    pub pc: usize,
    /// The address of the cell that the stack pointer names.
    pub sp: usize,
    /// Index register X.
    pub idx_x: u8,
    /// Index register Y.
    pub idx_y: u8,
    /// The accumulator.
    pub accu: u8,
    /// The status flags.
    pub status: u8,
    /// The addressing mode of the instruction decoded last.
    pub addr_mode: AddressMode,
    /// The address of the first cell of the stack page.
    pub stack_base: usize,
    /// The address of the cell that an empty stack points at.
    pub stack_top: usize,
    /// The cells above the stack pointer with their addresses, from the
    /// top of the stack page downwards.
    pub stack: Vec<(usize, u8)>,
}

impl CpuDump {
    /// Whether this listing is the one of state `s`.
    pub open spec fn shows(&self, s: Machine) -> bool {
        &&& self.pc == s.pc
        &&& self.sp == stack_addr(s.sp)
        &&& self.idx_x == s.idx_x
        &&& self.idx_y == s.idx_y
        &&& self.accu == s.accu
        &&& self.status == s.status
        &&& self.addr_mode == s.addr_mode
        &&& self.stack_base == STACK_BASE_ADDRESS
        &&& self.stack_top == stack_addr(STACK_START_VALUE)
        &&& self.stack@.len() == STACK_START_VALUE - s.sp
        &&& forall|i: int|
            0 <= i < self.stack@.len() ==> #[trigger] self.stack@[i] == (
                (stack_addr(STACK_START_VALUE) - i) as usize,
                s.mem[stack_addr(STACK_START_VALUE) - i],
            )
    }
}

/// An MCS 6502 with its memory.
pub struct Mcs6502<M: Memory> {
    /// The memory that the processor addresses.
    pub ram: M,
    /// The address of the next instruction.
    pub pc: u16,
    /// The stack pointer.
    pub sp: u8,
    /// Index register X.
    pub idx_x: u8,
    /// Index register Y.
    pub idx_y: u8,
    /// The accumulator.
    pub accu: u8,
    /// The addressing mode of the instruction decoded last.
    pub addr_mode: AddressMode,
    /// The status flags.
    pub status: u8,
    /// The bytes that PRT has emitted and the host has not yet taken.
    pub output: Vec<u8>,
}

impl<M: Memory> View for Mcs6502<M> {
    type V = Machine;

    open spec fn view(&self) -> Machine {
        Machine {
            mem: self.ram@,
            pc: self.pc,
            sp: self.sp,
            idx_x: self.idx_x,
            idx_y: self.idx_y,
            accu: self.accu,
            status: self.status,
            addr_mode: self.addr_mode,
            output: self.output@,
        }
    }
}

impl<M: Memory> Cpu<M> for Mcs6502<M> {
    open spec fn machine(&self) -> Machine {
        self@
    }

    fn memory(&mut self) -> (ram: &mut M)
        ensures
            *ram == old(self).ram,
            *final(self) == (Mcs6502 { ram: *final(ram), ..*old(self) }),
    {
        &mut self.ram
    }

    fn boot<C: Readable>(&mut self, cart: &C) {
        self.ram.map(ROM_MAP_ADDRESS, cart);
        self.restart();
    }

    fn restart(&mut self) {
        self.accu = 0;
        self.idx_x = 0;
        self.idx_y = 0;
        self.pc = self.read_word(PC_INIT_ADDRESS as u16);
        self.sp = STACK_START_VALUE - 2;
        self.set_flag(true, STS_INT_MASK);
    }

    #[verifier::rlimit(30)]
    fn execute(&mut self) -> (done: Result<(), CpuError>)
        ensures
            done is Err ==> *final(self) == *old(self),
    {
        proof {
            reveal(model::perform);
        }
        let opcode = self.read_byte(self.pc);
        let mnemonic = match get_mnemonic(opcode) {
            Some(mnemonic) => mnemonic,
            None => {
                return Err(CpuError::UnknownOpcode(opcode));
            },
        };
        let last_mode = self.addr_mode;
        self.addr_mode = get_addr_mode(opcode);
        let operand = self.get_operand();
        let done = match mnemonic {
            Mnemonic::Adc => self.op_adc(operand),
            Mnemonic::Sbc => self.op_sbc(operand),
            Mnemonic::Prt => self.op_prt(),
            Mnemonic::Tos | Mnemonic::Var => Err(CpuError::UnknownOpcode(opcode)),
            Mnemonic::And => {
                self.op_and(operand);
                Ok(())
            },
            Mnemonic::Asl => {
                self.op_asl(operand);
                Ok(())
            },
            Mnemonic::Bcc => {
                self.op_bcc(operand);
                return Ok(());
            },
            Mnemonic::Bcs => {
                self.op_bcs(operand);
                return Ok(());
            },
            Mnemonic::Beq => {
                self.op_beq(operand);
                return Ok(());
            },
            Mnemonic::Bit => {
                self.op_bit(operand);
                Ok(())
            },
            Mnemonic::Bmi => {
                self.op_bmi(operand);
                return Ok(());
            },
            Mnemonic::Bne => {
                self.op_bne(operand);
                return Ok(());
            },
            Mnemonic::Bpl => {
                self.op_bpl(operand);
                return Ok(());
            },
            Mnemonic::Brk => {
                self.op_brk();
                return Ok(());
            },
            Mnemonic::Bvc => {
                self.op_bvc(operand);
                return Ok(());
            },
            Mnemonic::Bvs => {
                self.op_bvs(operand);
                return Ok(());
            },
            Mnemonic::Clc => {
                self.op_clc();
                Ok(())
            },
            Mnemonic::Cld => {
                self.op_cld();
                Ok(())
            },
            Mnemonic::Cli => {
                self.op_cli();
                Ok(())
            },
            Mnemonic::Clv => {
                self.op_clv();
                Ok(())
            },
            Mnemonic::Cmp => {
                self.op_cmp(operand);
                Ok(())
            },
            Mnemonic::Cpx => {
                self.op_cpx(operand);
                Ok(())
            },
            Mnemonic::Cpy => {
                self.op_cpy(operand);
                Ok(())
            },
            Mnemonic::Dec => {
                self.op_dec(operand);
                Ok(())
            },
            Mnemonic::Dex => {
                self.op_dex();
                Ok(())
            },
            Mnemonic::Dey => {
                self.op_dey();
                Ok(())
            },
            Mnemonic::Eor => {
                self.op_eor(operand);
                Ok(())
            },
            Mnemonic::Inc => {
                self.op_inc(operand);
                Ok(())
            },
            Mnemonic::Inx => {
                self.op_inx();
                Ok(())
            },
            Mnemonic::Iny => {
                self.op_iny();
                Ok(())
            },
            Mnemonic::Jmp => {
                self.op_jmp();
                return Ok(());
            },
            Mnemonic::Jsr => {
                self.op_jsr();
                return Ok(());
            },
            Mnemonic::Lda => {
                self.op_lda(operand);
                Ok(())
            },
            Mnemonic::Ldx => {
                self.op_ldx(operand);
                Ok(())
            },
            Mnemonic::Ldy => {
                self.op_ldy(operand);
                Ok(())
            },
            Mnemonic::Lsr => {
                self.op_lsr(operand);
                Ok(())
            },
            Mnemonic::Nop => {
                self.op_nop();
                Ok(())
            },
            Mnemonic::Ora => {
                self.op_ora(operand);
                Ok(())
            },
            Mnemonic::Pha => {
                self.op_pha();
                Ok(())
            },
            Mnemonic::Php => {
                self.op_php();
                Ok(())
            },
            Mnemonic::Pla => {
                self.op_pla();
                Ok(())
            },
            Mnemonic::Plp => {
                self.op_plp();
                Ok(())
            },
            Mnemonic::Rol => {
                self.op_rol(operand);
                Ok(())
            },
            Mnemonic::Ror => {
                self.op_ror(operand);
                Ok(())
            },
            Mnemonic::Rti => {
                self.op_rti();
                return Ok(());
            },
            Mnemonic::Rts => {
                self.op_rts();
                return Ok(());
            },
            Mnemonic::Sec => {
                self.op_sec();
                Ok(())
            },
            Mnemonic::Sed => {
                self.op_sed();
                Ok(())
            },
            Mnemonic::Sei => {
                self.op_sei();
                Ok(())
            },
            Mnemonic::Sta => {
                self.op_sta();
                Ok(())
            },
            Mnemonic::Stx => {
                self.op_stx();
                Ok(())
            },
            Mnemonic::Sty => {
                self.op_sty();
                Ok(())
            },
            Mnemonic::Tax => {
                self.op_tax();
                Ok(())
            },
            Mnemonic::Tay => {
                self.op_tay();
                Ok(())
            },
            Mnemonic::Tya => {
                self.op_tya();
                Ok(())
            },
            Mnemonic::Tsx => {
                self.op_tsx();
                Ok(())
            },
            Mnemonic::Txa => {
                self.op_txa();
                Ok(())
            },
            Mnemonic::Txs => {
                self.op_txs();
                Ok(())
            },
        };
        match done {
            Ok(()) => {
                self.advance();
            },
            Err(_) => {
                self.addr_mode = last_mode;
            },
        }
        done
    }

    #[verifier::rlimit(30)]
    fn run(&mut self, count: usize) -> (done: Result<(), CpuError>) {
        let mut i: usize = 0;
        while i < count
            invariant
                i <= count,
                self@.valid(),
                model::run(old(self)@, count as nat) == model::run(self@, (count - i) as nat),
                model::run_error(old(self)@, count as nat) == model::run_error(
                    self@,
                    (count - i) as nat,
                ),
            decreases count - i,
        {
            match self.execute() {
                Ok(()) => {},
                Err(e) => {
                    return Err(e);
                },
            }
            i += 1;
        }
        Ok(())
    }

    #[verifier::rlimit(30)]
    fn dump(&self) -> (listing: CpuDump) {
        let top = STACK_BASE_ADDRESS + STACK_START_VALUE as usize;
        let mut stack: Vec<(usize, u8)> = Vec::new();
        let mut i: usize = top;
        while i > self.sp()
            invariant
                self@.valid(),
                top == stack_addr(STACK_START_VALUE),
                stack_addr(self.sp) <= i <= top,
                stack@.len() == top - i,
                forall|k: int|
                    0 <= k < stack@.len() ==> #[trigger] stack@[k] == (
                        (top - k) as usize,
                        self.ram@[top - k],
                    ),
            decreases i,
        {
            stack.push((i, self.ram.read_u8(i)));
            i -= 1;
        }
        CpuDump {
            pc: self.pc(),
            sp: self.sp(),
            idx_x: self.idx_x,
            idx_y: self.idx_y,
            accu: self.accu,
            status: self.status,
            addr_mode: self.addr_mode,
            stack_base: STACK_BASE_ADDRESS,
            stack_top: top,
            stack,
        }
    }

    fn pc(&self) -> (pc: usize) {
        self.pc as usize - ROM_MAP_ADDRESS
    }
}

impl<M: Memory> Stack for Mcs6502<M> {
    open spec fn stack_machine(&self) -> Machine {
        self@
    }

    fn sp_dec(&mut self) {
        self.sp = self.sp.wrapping_sub(1);
    }

    fn sp_inc(&mut self) {
        self.sp = self.sp.wrapping_add(1);
    }

    fn push_u8(&mut self, data: u8) {
        let sp = self.sp();
        self.ram.write_u8(sp, data);
        self.sp_dec();
    }

    fn push_u16(&mut self, data: u16) {
        self.push_u8(crate::util::upper(data));
        self.push_u8(crate::util::lower(data));
    }

    fn pop_u8(&mut self) -> (data: u8) {
        self.sp_inc();
        self.ram.read_u8(self.sp())
    }

    fn pop_u16(&mut self) -> (data: u16) {
        let lo = self.pop_u8();
        let hi = self.pop_u8();
        to_u16(hi, lo)
    }

    fn sp(&self) -> (addr: usize) {
        (self.sp as usize) + STACK_BASE_ADDRESS
    }
}

impl<M: Memory> Mcs6502<M> {
    /// Whether the memory covers the whole address space, as every
    /// operation of the engine needs it to.
    pub open spec fn wf(&self) -> bool {
        self@.valid()
    }

    /// A processor that owns `ram`, with cleared registers, an empty stack
    /// and nothing emitted.
    pub fn new(ram: M) -> (cpu: Mcs6502<M>)
        requires
            ram@.len() == address_space(),
        ensures
            cpu.wf(),
            cpu.ram == ram,
            cpu.pc == 0,
            cpu.sp == STACK_START_VALUE,
            cpu.idx_x == 0,
            cpu.idx_y == 0,
            cpu.accu == 0,
            cpu.addr_mode == AddressMode::Undefined,
            cpu.status == 0,
            cpu.output@ == Seq::<u8>::empty(),
    {
        Mcs6502 {
            ram,
            pc: 0,
            sp: STACK_START_VALUE,
            idx_x: 0u8,
            idx_y: 0u8,
            accu: 0u8,
            addr_mode: AddressMode::Undefined,
            status: 0u8,
            output: Vec::new(),
        }
    }

    /// Stores `addr` in the reset vector.
    pub fn set_init_pc_value(&mut self, addr: u16)
        requires
            old(self).wf(),
        ensures
            final(self).wf(),
            final(self)@ == (Machine {
                mem: old(self)@.mem.update(PC_INIT_ADDRESS as int, crate::util::low_byte(addr)).update(
                    PC_INIT_ADDRESS + 1,
                    crate::util::high_byte(addr),
                ),
                ..old(self)@
            }),
            model::word(final(self)@.mem, PC_INIT_ADDRESS as u16) == addr,
    {
        self.ram.write_u16(PC_INIT_ADDRESS, addr);
    }

    /// Stores `addr` in the interrupt request vector.
    pub fn set_int_req_addr(&mut self, addr: u16)
        requires
            old(self).wf(),
        ensures
            final(self).wf(),
            final(self)@ == (Machine {
                mem: old(self)@.mem.update(INT_REQ_ADDRESS as int, crate::util::low_byte(addr)).update(
                    INT_REQ_ADDRESS + 1,
                    crate::util::high_byte(addr),
                ),
                ..old(self)@
            }),
            model::word(final(self)@.mem, INT_REQ_ADDRESS as u16) == addr,
    {
        self.ram.write_u16(INT_REQ_ADDRESS, addr);
    }

    /// Stores `addr` in the non-maskable interrupt vector.
    pub fn set_int_nomask_addr(&mut self, addr: u16)
        requires
            old(self).wf(),
        ensures
            final(self).wf(),
            final(self)@ == (Machine {
                mem: old(self)@.mem.update(
                    INT_NOMASK_ADDRESS as int,
                    crate::util::low_byte(addr),
                ).update(INT_NOMASK_ADDRESS + 1, crate::util::high_byte(addr)),
                ..old(self)@
            }),
            model::word(final(self)@.mem, INT_NOMASK_ADDRESS as u16) == addr,
    {
        self.ram.write_u16(INT_NOMASK_ADDRESS, addr);
    }

    /// An interrupt request. It is taken only while Interrupt-Disable is
    /// clear: then the program counter and the status are pushed, Break is
    /// cleared, Interrupt-Disable is set and the handler is entered.
    pub fn interrupt(&mut self)
        requires
            old(self).wf(),
        ensures
            final(self).wf(),
            final(self)@ == model::irq(old(self)@),
    {
        if !self.get_flag(STS_INT_MASK) {
            self.enter(INT_REQ_ADDRESS as u16);
        }
    }

    /// A non-maskable interrupt: as an interrupt request, but always taken
    /// and with a vector of its own.
    pub fn non_maskable_interrupt(&mut self)
        requires
            old(self).wf(),
        ensures
            final(self).wf(),
            final(self)@ == model::nmi(old(self)@),
    {
        self.enter(INT_NOMASK_ADDRESS as u16);
    }

    /// Takes the bytes that PRT has emitted since the last call.
    pub fn take_output(&mut self) -> (bytes: Vec<u8>)
        ensures
            bytes@ == old(self)@.output,
            final(self)@ == (Machine { output: Seq::<u8>::empty(), ..old(self)@ }),
            final(self).ram == old(self).ram,
    {
        let mut bytes: Vec<u8> = Vec::new();
        bytes.append(&mut self.output);
        bytes
    }

    /// Pushes the program counter and the status, clears Break, sets
    /// Interrupt-Disable and goes to the handler whose address is stored
    /// at `vector`.
    fn enter(&mut self, vector: u16)
        requires
            old(self).wf(),
        ensures
            final(self).wf(),
            final(self)@ == model::enter(
                old(self)@,
                old(self).pc,
                model::interrupt_status(old(self).status),
                vector,
            ),
    {
        let pc = self.pc;
        let status = self.status;
        self.push_u16(pc);
        self.push_u8(status);
        self.set_flag(false, STS_BRK_MASK);
        self.set_flag(true, STS_INT_MASK);
        self.pc = self.read_word(vector);
    }

    /// Reads the cell at `addr`.
    fn read_byte(&self, addr: u16) -> (data: u8)
        requires
            self.wf(),
        ensures
            data == model::cell(self@.mem, addr),
    {
        self.ram.read_u8(addr as usize)
    }

    /// Reads the little-endian word at `addr`; its high byte comes from
    /// address 0 if `addr` is the last address.
    fn read_word(&self, addr: u16) -> (data: u16)
        requires
            self.wf(),
        ensures
            data == model::word(self@.mem, addr),
    {
        if addr < 0xFFFF {
            self.ram.read_u16(addr as usize)
        } else {
            to_u16(self.ram.read_u8(0), self.ram.read_u8(addr as usize))
        }
    }

    /// `a + b` modulo 256.
    fn add8(a: u8, b: u8) -> (sum: u8)
        ensures
            sum == model::wrap8(a + b),
    {
        a.wrapping_add(b)
    }

    /// `a + b` modulo 65536.
    fn add16(a: u16, b: u8) -> (sum: u16)
        ensures
            sum == model::wrap16(a + b),
    {
        a.wrapping_add(b as u16)
    }

    /// The byte that follows the opcode.
    fn immediate(&self) -> (data: u8)
        requires
            self.wf(),
        ensures
            data == model::immediate(self@),
    {
        self.read_byte(Self::add16(self.pc, 1))
    }

    /// The word that follows the opcode.
    fn immediate_word(&self) -> (data: u16)
        requires
            self.wf(),
        ensures
            data == model::immediate_word(self@),
    {
        self.read_word(Self::add16(self.pc, 1))
    }

    /// The address of the operand, in the modes whose operand lies in
    /// memory.
    fn operand_addr(&self) -> (addr: Option<u16>)
        requires
            self.wf(),
        ensures
            addr == model::data_addr(self@),
    {
        match self.addr_mode {
            AddressMode::ZeroPage => Some(self.immediate() as u16),
            AddressMode::ZeroPageX => Some(Self::add8(self.immediate(), self.idx_x) as u16),
            AddressMode::ZeroPageY => Some(Self::add8(self.immediate(), self.idx_y) as u16),
            AddressMode::Absolute => Some(self.immediate_word()),
            AddressMode::AbsoluteX => Some(Self::add16(self.immediate_word(), self.idx_x)),
            AddressMode::AbsoluteY => Some(Self::add16(self.immediate_word(), self.idx_y)),
            AddressMode::IndirectX => {
                let ptr = Self::add8(self.immediate(), self.idx_x);
                Some(self.read_word(ptr as u16))
            },
            AddressMode::IndirectY => {
                let ptr = self.immediate();
                Some(Self::add16(self.read_word(ptr as u16), self.idx_y))
            },
            _ => None,
        }
    }

    /// The value that the instruction reads in the current addressing
    /// mode; 0 in a mode without an operand.
    pub fn get_operand(&self) -> (value: u8)
        requires
            self.wf(),
        ensures
            value == model::operand(self@),
    {
        match self.addr_mode {
            AddressMode::Relative | AddressMode::Immediate => self.immediate(),
            AddressMode::Accumulator => self.accu,
            _ => match self.operand_addr() {
                Some(addr) => self.read_byte(addr),
                None => 0,
            },
        }
    }

    /// Sets the bits of `mask` in the status if `cond` holds, and clears
    /// them otherwise.
    pub fn set_flag(&mut self, cond: bool, mask: u8)
        ensures
            *final(self) == (Mcs6502 {
                status: with_flag(old(self).status, mask, cond),
                ..*old(self)
            }),
    {
        if cond {
            self.status = self.status | mask;
        } else {
            self.status = self.status & !mask;
        }
    }

    /// Whether a bit of `mask` is set in the status.
    pub fn get_flag(&self, mask: u8) -> (on: bool)
        ensures
            on == flag(self.status, mask),
    {
        self.status & mask > 0
    }

    /// Writes `operand` back to where the current addressing mode took its
    /// operand from. In a mode without such a place nothing happens.
    pub fn set_operand(&mut self, operand: u8)
        requires
            old(self).wf(),
        ensures
            final(self).wf(),
            final(self)@ == model::store(old(self)@, operand),
    {
        match self.addr_mode {
            AddressMode::Accumulator => {
                self.accu = operand;
            },
            _ => match self.operand_addr() {
                Some(addr) => {
                    self.ram.write_u8(addr as usize, operand);
                },
                None => {},
            },
        }
    }

    /// Sets Negative and Zero from the result byte `value`.
    fn set_zn(&mut self, value: u8)
        ensures
            *final(self) == (Mcs6502 {
                status: model::with_zn(old(self).status, value),
                ..*old(self)
            }),
    {
        self.set_flag(value >= 0x80, STS_NEG_MASK);
        self.set_flag(value == 0, STS_ZER_MASK);
    }

    /// Moves the program counter past the current instruction.
    fn advance(&mut self)
        ensures
            *final(self) == (Mcs6502 { pc: model::advance(old(self)@).pc, ..*old(self) }),
            final(self)@ == model::advance(old(self)@),
    {
        let len = pc_offset(&self.addr_mode);
        self.pc = self.pc.wrapping_add(len as u16);
    }

    /// Moves the program counter by the signed `offset` if `cond` holds,
    /// and past the instruction otherwise.
    fn branch(&mut self, cond: bool, offset: u8)
        ensures
            *final(self) == (Mcs6502 {
                pc: model::branch(old(self)@, cond, offset).pc,
                ..*old(self)
            }),
            final(self)@ == model::branch(old(self)@, cond, offset),
    {
        if cond {
            if offset >= 0x80 {
                self.pc = self.pc.wrapping_sub(0x100 - offset as u16);
            } else {
                self.pc = self.pc.wrapping_add(offset as u16);
            }
        } else {
            self.advance();
        }
    }

    /// Sets the program counter to `addr`, counted from where the program
    /// image starts.
    fn jump(&mut self, addr: u16)
        ensures
            *final(self) == (Mcs6502 { pc: addr, ..*old(self) }),
    {
        self.pc = addr;
    }

    /// `byte` as a two's-complement number.
    fn signed_value(byte: u8) -> (value: i16)
        ensures
            value == model::signed(byte),
    {
        if byte >= 0x80 {
            byte as i16 - 0x100
        } else {
            byte as i16
        }
    }

    /// ADC: adds the operand and Carry to the accumulator. Refused in decimal mode.
    fn op_adc(&mut self, operand: u8) -> (done: Result<(), CpuError>)
        ensures
            flag(old(self).status, STS_DEC_MASK) ==> done == Err::<(), CpuError>(
                CpuError::DecimalMode,
            ) && *final(self) == *old(self),
            !flag(old(self).status, STS_DEC_MASK) ==> done is Ok && *final(self) == (Mcs6502 {
                accu: model::adc(old(self)@, operand).accu,
                status: model::adc(old(self)@, operand).status,
                ..*old(self)
            }),
    {
        if self.get_flag(STS_DEC_MASK) {
            return Err(CpuError::DecimalMode);
        }
        let carry: u8 = if self.get_flag(STS_CAR_MASK) {
            1
        } else {
            0
        };
        let sum: u16 = self.accu as u16 + operand as u16 + carry as u16;
        let signed_sum: i16 = Self::signed_value(self.accu) + Self::signed_value(operand)
            + carry as i16;
        let result: u8 = (sum % 0x100) as u8;
        self.set_flag(sum > 0xFF, STS_CAR_MASK);
        self.set_flag(signed_sum > 127 || signed_sum < -128, STS_OVF_MASK);
        self.accu = result;
        self.set_zn(result);
        Ok(())
    }

    /// AND: the accumulator and the operand, bit by bit.
    fn op_and(&mut self, operand: u8)
        ensures
            *final(self) == (Mcs6502 {
                accu: model::and(old(self)@, operand).accu,
                status: model::and(old(self)@, operand).status,
                ..*old(self)
            }),
    {
        self.accu = self.accu & operand;
        let accu = self.accu;
        self.set_zn(accu);
    }

    /// ASL: shifts the operand left by one bit and writes it back.
    fn op_asl(&mut self, operand: u8)
        requires
            old(self).wf(),
        ensures
            final(self).wf(),
            final(self)@ == model::asl(old(self)@, operand),
    {
        self.set_flag(operand >= 0x80, STS_CAR_MASK);
        assert(operand << 1 == (operand * 2) % 0x100) by (bit_vector);
        let result = operand << 1;
        self.set_zn(result);
        self.set_operand(result);
    }

    /// BCC: branches if Carry is clear.
    fn op_bcc(&mut self, operand: u8)
        ensures
            final(self)@ == model::branch(
                old(self)@,
                !flag(old(self).status, STS_CAR_MASK),
                operand,
            ),
            final(self).ram == old(self).ram,
    {
        let cond = !self.get_flag(STS_CAR_MASK);
        self.branch(cond, operand);
    }

    /// BCS: branches if Carry is set.
    fn op_bcs(&mut self, operand: u8)
        ensures
            final(self)@ == model::branch(old(self)@, flag(old(self).status, STS_CAR_MASK), operand),
            final(self).ram == old(self).ram,
    {
        let cond = self.get_flag(STS_CAR_MASK);
        self.branch(cond, operand);
    }

    /// BEQ: branches if Zero is set.
    fn op_beq(&mut self, operand: u8)
        ensures
            final(self)@ == model::branch(old(self)@, flag(old(self).status, STS_ZER_MASK), operand),
            final(self).ram == old(self).ram,
    {
        let cond = self.get_flag(STS_ZER_MASK);
        self.branch(cond, operand);
    }

    /// BIT: tests the operand against the accumulator.
    fn op_bit(&mut self, operand: u8)
        ensures
            *final(self) == (Mcs6502 {
                status: model::bit(old(self)@, operand).status,
                ..*old(self)
            }),
            final(self)@ == model::bit(old(self)@, operand),
    {
        let res = self.accu & operand;
        self.set_flag((operand & STS_NEG_MASK) > 0, STS_NEG_MASK);
        self.set_flag((operand & STS_OVF_MASK) > 0, STS_OVF_MASK);
        self.set_flag(res == 0, STS_ZER_MASK);
    }

    /// BMI: branches if Negative is set.
    fn op_bmi(&mut self, operand: u8)
        ensures
            final(self)@ == model::branch(old(self)@, flag(old(self).status, STS_NEG_MASK), operand),
            final(self).ram == old(self).ram,
    {
        let cond = self.get_flag(STS_NEG_MASK);
        self.branch(cond, operand);
    }

    /// BNE: branches if Zero is clear.
    fn op_bne(&mut self, operand: u8)
        ensures
            final(self)@ == model::branch(
                old(self)@,
                !flag(old(self).status, STS_ZER_MASK),
                operand,
            ),
            final(self).ram == old(self).ram,
    {
        let cond = !self.get_flag(STS_ZER_MASK);
        self.branch(cond, operand);
    }

    /// BPL: branches if Negative is clear.
    fn op_bpl(&mut self, operand: u8)
        ensures
            final(self)@ == model::branch(
                old(self)@,
                !flag(old(self).status, STS_NEG_MASK),
                operand,
            ),
            final(self).ram == old(self).ram,
    {
        let cond = !self.get_flag(STS_NEG_MASK);
        self.branch(cond, operand);
    }

    /// BRK: pushes the address two bytes on and the status, sets Break and
    /// goes to the handler of the interrupt request vector.
    fn op_brk(&mut self)
        requires
            old(self).wf(),
        ensures
            final(self).wf(),
            final(self)@ == model::brk(old(self)@),
    {
        let pc = Self::add16(self.pc, 2);
        let status = self.status;
        self.push_u16(pc);
        self.push_u8(status);
        self.set_flag(true, STS_BRK_MASK);
        self.pc = self.read_word(INT_REQ_ADDRESS as u16);
    }

    /// BVC: branches if Overflow is clear.
    fn op_bvc(&mut self, operand: u8)
        ensures
            final(self)@ == model::branch(
                old(self)@,
                !flag(old(self).status, STS_OVF_MASK),
                operand,
            ),
            final(self).ram == old(self).ram,
    {
        let cond = !self.get_flag(STS_OVF_MASK);
        self.branch(cond, operand);
    }

    /// BVS: branches if Overflow is set.
    fn op_bvs(&mut self, operand: u8)
        ensures
            final(self)@ == model::branch(old(self)@, flag(old(self).status, STS_OVF_MASK), operand),
            final(self).ram == old(self).ram,
    {
        let cond = self.get_flag(STS_OVF_MASK);
        self.branch(cond, operand);
    }

    /// CLC: clears Carry.
    fn op_clc(&mut self)
        ensures
            *final(self) == (Mcs6502 {
                status: with_flag(old(self).status, STS_CAR_MASK, false),
                ..*old(self)
            }),
    {
        self.set_flag(false, STS_CAR_MASK);
    }

    /// CLD: clears Decimal.
    fn op_cld(&mut self)
        ensures
            *final(self) == (Mcs6502 {
                status: with_flag(old(self).status, STS_DEC_MASK, false),
                ..*old(self)
            }),
    {
        self.set_flag(false, STS_DEC_MASK);
    }

    /// CLI: clears Interrupt-Disable.
    fn op_cli(&mut self)
        ensures
            *final(self) == (Mcs6502 {
                status: with_flag(old(self).status, STS_INT_MASK, false),
                ..*old(self)
            }),
    {
        self.set_flag(false, STS_INT_MASK);
    }

    /// CLV: clears Overflow.
    fn op_clv(&mut self)
        ensures
            *final(self) == (Mcs6502 {
                status: with_flag(old(self).status, STS_OVF_MASK, false),
                ..*old(self)
            }),
    {
        self.set_flag(false, STS_OVF_MASK);
    }

    /// Sets Carry, Zero and Negative from comparing `register` with
    /// `operand`.
    fn compare(&mut self, register: u8, operand: u8)
        ensures
            *final(self) == (Mcs6502 {
                status: model::compared(old(self).status, register, operand),
                ..*old(self)
            }),
    {
        self.set_flag(register >= operand, STS_CAR_MASK);
        self.set_zn(register.wrapping_sub(operand));
    }

    /// CMP: compares the accumulator with the operand.
    fn op_cmp(&mut self, operand: u8)
        ensures
            *final(self) == (Mcs6502 {
                status: model::compared(old(self).status, old(self).accu, operand),
                ..*old(self)
            }),
    {
        let accu = self.accu;
        self.compare(accu, operand);
    }

    /// CPX: compares X with the operand.
    fn op_cpx(&mut self, operand: u8)
        ensures
            *final(self) == (Mcs6502 {
                status: model::compared(old(self).status, old(self).idx_x, operand),
                ..*old(self)
            }),
    {
        let idx_x = self.idx_x;
        self.compare(idx_x, operand);
    }

    /// CPY: compares Y with the operand.
    fn op_cpy(&mut self, operand: u8)
        ensures
            *final(self) == (Mcs6502 {
                status: model::compared(old(self).status, old(self).idx_y, operand),
                ..*old(self)
            }),
    {
        let idx_y = self.idx_y;
        self.compare(idx_y, operand);
    }

    /// DEC: decrements the operand and writes it back.
    fn op_dec(&mut self, operand: u8)
        requires
            old(self).wf(),
        ensures
            final(self).wf(),
            final(self)@ == model::dec(old(self)@, operand),
    {
        let result = operand.wrapping_sub(1);
        self.set_zn(result);
        self.set_operand(result);
    }

    /// DEX: decrements X.
    fn op_dex(&mut self)
        ensures
            *final(self) == (Mcs6502 {
                idx_x: model::wrap8(old(self).idx_x - 1),
                status: model::with_zn(old(self).status, model::wrap8(old(self).idx_x - 1)),
                ..*old(self)
            }),
    {
        self.idx_x = self.idx_x.wrapping_sub(1);
        let idx_x = self.idx_x;
        self.set_zn(idx_x);
    }

    /// DEY: decrements Y.
    fn op_dey(&mut self)
        ensures
            *final(self) == (Mcs6502 {
                idx_y: model::wrap8(old(self).idx_y - 1),
                status: model::with_zn(old(self).status, model::wrap8(old(self).idx_y - 1)),
                ..*old(self)
            }),
    {
        self.idx_y = self.idx_y.wrapping_sub(1);
        let idx_y = self.idx_y;
        self.set_zn(idx_y);
    }

    /// EOR: the accumulator exclusive-or the operand, bit by bit.
    fn op_eor(&mut self, operand: u8)
        ensures
            *final(self) == (Mcs6502 {
                accu: model::eor(old(self)@, operand).accu,
                status: model::eor(old(self)@, operand).status,
                ..*old(self)
            }),
    {
        self.accu = self.accu ^ operand;
        let accu = self.accu;
        self.set_zn(accu);
    }

    /// INC: increments the operand and writes it back.
    fn op_inc(&mut self, operand: u8)
        requires
            old(self).wf(),
        ensures
            final(self).wf(),
            final(self)@ == model::inc(old(self)@, operand),
    {
        let result = operand.wrapping_add(1);
        self.set_zn(result);
        self.set_operand(result);
    }

    /// INX: increments X.
    fn op_inx(&mut self)
        ensures
            *final(self) == (Mcs6502 {
                idx_x: model::wrap8(old(self).idx_x + 1),
                status: model::with_zn(old(self).status, model::wrap8(old(self).idx_x + 1)),
                ..*old(self)
            }),
    {
        self.idx_x = self.idx_x.wrapping_add(1);
        let idx_x = self.idx_x;
        self.set_zn(idx_x);
    }

    /// INY: increments Y.
    fn op_iny(&mut self)
        ensures
            *final(self) == (Mcs6502 {
                idx_y: model::wrap8(old(self).idx_y + 1),
                status: model::with_zn(old(self).status, model::wrap8(old(self).idx_y + 1)),
                ..*old(self)
            }),
    {
        self.idx_y = self.idx_y.wrapping_add(1);
        let idx_y = self.idx_y;
        self.set_zn(idx_y);
    }

    /// JMP: goes to the address after the opcode or, indirectly, to the
    /// address stored there.
    fn op_jmp(&mut self)
        requires
            old(self).wf(),
        ensures
            *final(self) == (Mcs6502 { pc: model::jmp(old(self)@).pc, ..*old(self) }),
            final(self)@ == model::jmp(old(self)@),
    {
        let addr = self.immediate_word();
        match self.addr_mode {
            AddressMode::Absolute => {
                self.jump(addr);
            },
            AddressMode::Indirect => {
                let actual_addr = self.read_word(addr);
                self.jump(actual_addr);
            },
            _ => {
                self.advance();
            },
        }
    }

    /// JSR: pushes the address of its own last byte and goes to the address
    /// after the opcode.
    fn op_jsr(&mut self)
        requires
            old(self).wf(),
        ensures
            final(self).wf(),
            final(self)@ == model::jsr(old(self)@),
    {
        let addr = self.immediate_word();
        let pc = Self::add16(self.pc, 2);
        self.push_u16(pc);
        self.pc = addr;
    }

    /// LDA: loads the accumulator.
    fn op_lda(&mut self, operand: u8)
        ensures
            *final(self) == (Mcs6502 {
                accu: operand,
                status: model::with_zn(old(self).status, operand),
                ..*old(self)
            }),
    {
        self.accu = operand;
        self.set_zn(operand);
    }

    /// LDX: loads X.
    fn op_ldx(&mut self, operand: u8)
        ensures
            *final(self) == (Mcs6502 {
                idx_x: operand,
                status: model::with_zn(old(self).status, operand),
                ..*old(self)
            }),
    {
        self.idx_x = operand;
        self.set_zn(operand);
    }

    /// LDY: loads Y.
    fn op_ldy(&mut self, operand: u8)
        ensures
            *final(self) == (Mcs6502 {
                idx_y: operand,
                status: model::with_zn(old(self).status, operand),
                ..*old(self)
            }),
    {
        self.idx_y = operand;
        self.set_zn(operand);
    }

    /// LSR: shifts the operand right by one bit and writes it back.
    fn op_lsr(&mut self, operand: u8)
        requires
            old(self).wf(),
        ensures
            final(self).wf(),
            final(self)@ == model::lsr(old(self)@, operand),
    {
        assert(operand & 1 == operand % 2) by (bit_vector);
        assert(operand >> 1 == operand / 2) by (bit_vector);
        self.set_flag((operand & 1) == 1, STS_CAR_MASK);
        let result = operand >> 1;
        self.set_zn(result);
        self.set_operand(result);
    }

    /// NOP: does nothing.
    fn op_nop(&mut self)
        ensures
            *final(self) == *old(self),
    {
    }

    /// ORA: the accumulator or the operand, bit by bit.
    fn op_ora(&mut self, operand: u8)
        ensures
            *final(self) == (Mcs6502 {
                accu: model::ora(old(self)@, operand).accu,
                status: model::ora(old(self)@, operand).status,
                ..*old(self)
            }),
    {
        self.accu = self.accu | operand;
        let accu = self.accu;
        self.set_zn(accu);
    }

    /// PHA: pushes the accumulator.
    fn op_pha(&mut self)
        requires
            old(self).wf(),
        ensures
            final(self).wf(),
            final(self)@ == model::push8(old(self)@, old(self).accu),
    {
        let accu = self.accu;
        self.push_u8(accu);
    }

    /// PHP: pushes the status.
    fn op_php(&mut self)
        requires
            old(self).wf(),
        ensures
            final(self).wf(),
            final(self)@ == model::push8(old(self)@, old(self).status),
    {
        let status = self.status;
        self.push_u8(status);
    }

    /// PLA: pulls the accumulator and sets Zero and Negative from it.
    fn op_pla(&mut self)
        requires
            old(self).wf(),
        ensures
            final(self).wf(),
            final(self)@ == model::load_a(model::drop8(old(self)@), model::top8(old(self)@)),
    {
        self.accu = self.pop_u8();
        let accu = self.accu;
        self.set_zn(accu);
    }

    /// PLP: pulls the status.
    fn op_plp(&mut self)
        requires
            old(self).wf(),
        ensures
            final(self).wf(),
            final(self)@ == model::with_status(model::drop8(old(self)@), model::top8(old(self)@)),
    {
        self.status = self.pop_u8();
    }

    /// ROL: rotates the operand left through Carry and writes it back.
    fn op_rol(&mut self, operand: u8)
        requires
            old(self).wf(),
        ensures
            final(self).wf(),
            final(self)@ == model::rol(old(self)@, operand),
    {
        let input_carry: u8 = if self.get_flag(STS_CAR_MASK) {
            1
        } else {
            0
        };
        self.set_flag(operand >= 0x80, STS_CAR_MASK);
        assert((operand << 1) | input_carry == (operand * 2 + input_carry) % 0x100)
            by (bit_vector)
            requires
                input_carry <= 1,
        ;
        let result = (operand << 1) | input_carry;
        self.set_zn(result);
        self.set_operand(result);
    }

    /// ROR: rotates the operand right through Carry and writes it back.
    fn op_ror(&mut self, operand: u8)
        requires
            old(self).wf(),
        ensures
            final(self).wf(),
            final(self)@ == model::ror(old(self)@, operand),
    {
        let input_carry: u8 = if self.get_flag(STS_CAR_MASK) {
            1
        } else {
            0
        };
        assert(operand & 1 == operand % 2) by (bit_vector);
        assert((operand >> 1) | (input_carry << 7) == operand / 2 + 0x80 * input_carry)
            by (bit_vector)
            requires
                input_carry <= 1,
        ;
        self.set_flag((operand & 1) == 1, STS_CAR_MASK);
        let result = (operand >> 1) | (input_carry << 7);
        self.set_zn(result);
        self.set_operand(result);
    }

    /// RTI: pulls the status and then the program counter.
    fn op_rti(&mut self)
        requires
            old(self).wf(),
        ensures
            final(self).wf(),
            final(self)@ == model::rti(old(self)@),
    {
        self.op_plp();
        self.pc = self.pop_u16();
    }

    /// RTS: pulls an address and goes on at the byte after it.
    fn op_rts(&mut self)
        requires
            old(self).wf(),
        ensures
            final(self).wf(),
            final(self)@ == model::rts(old(self)@),
    {
        self.pc = self.pop_u16();
        self.pc = self.pc.wrapping_add(1);
    }

    /// SBC: subtracts the operand and the borrow from the accumulator.
    /// Refused in decimal mode.
    fn op_sbc(&mut self, operand: u8) -> (done: Result<(), CpuError>)
        ensures
            flag(old(self).status, STS_DEC_MASK) ==> done == Err::<(), CpuError>(
                CpuError::DecimalMode,
            ) && *final(self) == *old(self),
            !flag(old(self).status, STS_DEC_MASK) ==> done is Ok && *final(self) == (Mcs6502 {
                accu: model::sbc(old(self)@, operand).accu,
                status: model::sbc(old(self)@, operand).status,
                ..*old(self)
            }),
    {
        if self.get_flag(STS_DEC_MASK) {
            return Err(CpuError::DecimalMode);
        }
        let borrow: i16 = if self.get_flag(STS_CAR_MASK) {
            0
        } else {
            1
        };
        let diff: i16 = self.accu as i16 - operand as i16 - borrow;
        let signed_diff: i16 = Self::signed_value(self.accu) - Self::signed_value(operand)
            - borrow;
        let result: u8 = if diff < 0 {
            (diff + 0x100) as u8
        } else {
            diff as u8
        };
        self.set_flag(diff >= 0, STS_CAR_MASK);
        self.set_flag(signed_diff > 127 || signed_diff < -128, STS_OVF_MASK);
        self.accu = result;
        self.set_zn(result);
        Ok(())
    }

    /// SEC: sets Carry.
    fn op_sec(&mut self)
        ensures
            *final(self) == (Mcs6502 {
                status: with_flag(old(self).status, STS_CAR_MASK, true),
                ..*old(self)
            }),
    {
        self.set_flag(true, STS_CAR_MASK);
    }

    /// SED: sets Decimal.
    fn op_sed(&mut self)
        ensures
            *final(self) == (Mcs6502 {
                status: with_flag(old(self).status, STS_DEC_MASK, true),
                ..*old(self)
            }),
    {
        self.set_flag(true, STS_DEC_MASK);
    }

    /// SEI: sets Interrupt-Disable.
    fn op_sei(&mut self)
        ensures
            *final(self) == (Mcs6502 {
                status: with_flag(old(self).status, STS_INT_MASK, true),
                ..*old(self)
            }),
    {
        self.set_flag(true, STS_INT_MASK);
    }

    /// STA: stores the accumulator.
    fn op_sta(&mut self)
        requires
            old(self).wf(),
        ensures
            final(self).wf(),
            final(self)@ == model::store(old(self)@, old(self).accu),
    {
        let res = self.accu;
        self.set_operand(res);
    }

    /// STX: stores X.
    fn op_stx(&mut self)
        requires
            old(self).wf(),
        ensures
            final(self).wf(),
            final(self)@ == model::store(old(self)@, old(self).idx_x),
    {
        let res = self.idx_x;
        self.set_operand(res);
    }

    /// STY: stores Y.
    fn op_sty(&mut self)
        requires
            old(self).wf(),
        ensures
            final(self).wf(),
            final(self)@ == model::store(old(self)@, old(self).idx_y),
    {
        let res = self.idx_y;
        self.set_operand(res);
    }

    /// TAX: copies the accumulator to X.
    fn op_tax(&mut self)
        ensures
            *final(self) == (Mcs6502 {
                idx_x: old(self).accu,
                status: model::with_zn(old(self).status, old(self).accu),
                ..*old(self)
            }),
    {
        self.idx_x = self.accu;
        let idx_x = self.idx_x;
        self.set_zn(idx_x);
    }

    /// TAY: copies the accumulator to Y.
    fn op_tay(&mut self)
        ensures
            *final(self) == (Mcs6502 {
                idx_y: old(self).accu,
                status: model::with_zn(old(self).status, old(self).accu),
                ..*old(self)
            }),
    {
        self.idx_y = self.accu;
        let idx_y = self.idx_y;
        self.set_zn(idx_y);
    }

    /// TYA: copies Y to the accumulator.
    fn op_tya(&mut self)
        ensures
            *final(self) == (Mcs6502 {
                accu: old(self).idx_y,
                status: model::with_zn(old(self).status, old(self).idx_y),
                ..*old(self)
            }),
    {
        self.accu = self.idx_y;
        let accu = self.accu;
        self.set_zn(accu);
    }

    /// TSX: copies the stack pointer to X.
    fn op_tsx(&mut self)
        ensures
            *final(self) == (Mcs6502 {
                idx_x: old(self).sp,
                status: model::with_zn(old(self).status, old(self).sp),
                ..*old(self)
            }),
    {
        self.idx_x = self.sp;
        let idx_x = self.idx_x;
        self.set_zn(idx_x);
    }

    /// TXA: copies X to the accumulator.
    fn op_txa(&mut self)
        ensures
            *final(self) == (Mcs6502 {
                accu: old(self).idx_x,
                status: model::with_zn(old(self).status, old(self).idx_x),
                ..*old(self)
            }),
    {
        self.accu = self.idx_x;
        let accu = self.accu;
        self.set_zn(accu);
    }

    /// TXS: copies X to the stack pointer; no flag changes.
    fn op_txs(&mut self)
        ensures
            *final(self) == (Mcs6502 { sp: old(self).idx_x, ..*old(self) }),
    {
        self.sp = self.idx_x;
    }

    /// PRT: appends the zero-terminated text at the operand address to the
    /// output. Refused if the text runs to the end of memory.
    #[verifier::rlimit(30)]
    fn op_prt(&mut self) -> (done: Result<(), CpuError>)
        requires
            old(self).wf(),
        ensures
            final(self).wf(),
            model::has_text(old(self)@) ==> done is Ok && final(self)@ == model::prt(old(self)@),
            !model::has_text(old(self)@) ==> done == Err::<(), CpuError>(
                CpuError::UnterminatedText(model::immediate_word(old(self)@)),
            ) && *final(self) == *old(self),
    {
        let start = self.immediate_word();
        let size = self.ram.size();
        let mut addr: usize = start as usize;
        let mut buf: Vec<u8> = Vec::new();
        let mut byte: u8 = 0x01;
        while byte != 0x00 && addr < size
            invariant
                self.wf(),
                *self == *old(self),
                size == address_space(),
                start <= addr <= size,
                buf@ == self.ram@.subrange(start as int, addr as int),
                text_len(self.ram@, start as int) == (addr - start) + (if byte == 0 {
                    0
                } else {
                    text_len(self.ram@, addr as int)
                }),
                byte == 0 ==> addr > start && self.ram@[addr - 1] == 0,
                forall|k: int| start <= k < addr - 1 ==> self.ram@[k] != 0,
                byte != 0 ==> forall|k: int| start <= k < addr ==> self.ram@[k] != 0,
            decreases (if byte == 0 { 0int } else { 1int }) + size - addr,
        {
            byte = self.ram.read_u8(addr);
            addr += 1;
            buf.push(byte);
            assert(buf@ =~= self.ram@.subrange(start as int, addr as int));
        }
        if byte != 0x00 {
            return Err(CpuError::UnterminatedText(start));
        }
        assert(buf@ == text_at(self.ram@, start as int));
        self.output.append(&mut buf);
        Ok(())
    }
}

} // verus!
