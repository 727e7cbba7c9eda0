//! What holds of the engine whatever the program: the laws of the flags,
//! of the stack, of the program counter, of interrupts and of bytes that
//! are no instruction.

use vstd::prelude::*;
use crate::cpus::mcs6502::model;
use crate::cpus::mcs6502::model::{
    cell, decoded, drop16, drop8, flag, has_handler, immediate_word, irq, jsr, nmi, operand,
    perform, push16, push8, rti, rts, run, run_error, stack_addr, step, store, top16, top8,
    with_flag, word, wrap16, wrap8, Machine,
};
use crate::util::{high_byte, low_byte, word_of};
use crate::assembler::mcs6502::distance_byte;
use crate::cpus::mcs6502::{
    CpuError, INT_NOMASK_ADDRESS, INT_REQ_ADDRESS, PC_INIT_ADDRESS, STS_BRK_MASK, STS_INT_MASK,
};
use crate::inst::mcs6502::addr::{addr_mode_of, instruction_len};
use crate::inst::mcs6502::{mnemonic_of, AddressMode, Mnemonic};

verus! {

/// A flag reads as it was last written.
pub proof fn lemma_flag_written(status: u8, mask: u8, on: bool)
    requires
        mask != 0,
    ensures
        flag(with_flag(status, mask, on), mask) == on,
{
    assert((status | mask) & mask > 0) by (bit_vector)
        requires
            mask != 0,
    ;
    assert(!((status & !mask) & mask > 0)) by (bit_vector);
}

/// Writing a flag leaves every flag alone that shares no bit with it.
pub proof fn lemma_flag_untouched(status: u8, mask: u8, other: u8, on: bool)
    requires
        mask & other == 0,
    ensures
        flag(with_flag(status, mask, on), other) == flag(status, other),
{
    assert((status | mask) & other == status & other) by (bit_vector)
        requires
            mask & other == 0,
    ;
    assert((status & !mask) & other == status & other) by (bit_vector)
        requires
            mask & other == 0,
    ;
}

/// Every addressing mode has an instruction length of 1, 2 or 3 bytes.
pub proof fn lemma_instruction_len(mode: AddressMode)
    ensures
        1 <= instruction_len(mode) <= 3,
{
}

/// Whether `mnemonic` sets the program counter itself: the branches, the
/// jump, the call, the two returns and the software interrupt.
pub open spec fn redirects(mnemonic: Mnemonic) -> bool {
    match mnemonic {
        Mnemonic::Bcc
        | Mnemonic::Bcs
        | Mnemonic::Beq
        | Mnemonic::Bne
        | Mnemonic::Bmi
        | Mnemonic::Bpl
        | Mnemonic::Bvc
        | Mnemonic::Bvs
        | Mnemonic::Jmp
        | Mnemonic::Jsr
        | Mnemonic::Rts
        | Mnemonic::Rti
        | Mnemonic::Brk => true,
        _ => false,
    }
}

/// Whether `after` has the program counter and the addressing mode of
/// `before`.
pub open spec fn same_place(after: Machine, before: Machine) -> bool {
    after.pc == before.pc && after.addr_mode == before.addr_mode
}

/// Writing an operand back moves neither the program counter nor the
/// addressing mode.
pub proof fn lemma_store_same_place(s: Machine, value: u8)
    ensures
        same_place(store(s, value), s),
{
}

/// After an instruction that does not set the program counter itself, the
/// program counter has moved by the length of the instruction, modulo the
/// size of the address space.
#[verifier::rlimit(30)]
pub proof fn lemma_pc_moves_by_instruction_len(s: Machine, mnemonic: Mnemonic)
    requires
        s.valid(),
        mnemonic_of(cell(s.mem, s.pc)) == Some(mnemonic),
        !redirects(mnemonic),
        step(s) is Ok,
    ensures
        step(s)->Ok_0.pc == wrap16(s.pc + instruction_len(addr_mode_of(cell(s.mem, s.pc)))),
        step(s)->Ok_0.addr_mode == addr_mode_of(cell(s.mem, s.pc)),
{
    reveal(perform);
    let d = decoded(s);
    let m = operand(d);
    assert(step(s) == perform(d, mnemonic));
    match mnemonic {
        Mnemonic::Asl => {
            assert(same_place(model::asl(d, m), d));
        },
        Mnemonic::Lsr => {
            assert(same_place(model::lsr(d, m), d));
        },
        Mnemonic::Rol => {
            assert(same_place(model::rol(d, m), d));
        },
        Mnemonic::Ror => {
            assert(same_place(model::ror(d, m), d));
        },
        Mnemonic::Inc => {
            assert(same_place(model::inc(d, m), d));
        },
        Mnemonic::Dec => {
            assert(same_place(model::dec(d, m), d));
        },
        Mnemonic::Sta => {
            lemma_store_same_place(d, d.accu);
        },
        Mnemonic::Stx => {
            lemma_store_same_place(d, d.idx_x);
        },
        Mnemonic::Sty => {
            lemma_store_same_place(d, d.idx_y);
        },
        _ => {},
    }
}

/// Moving the stack pointer by one and back leaves it where it was, and
/// moving it by one or by two moves it off its cell.
pub proof fn lemma_stack_pointer_steps(sp: u8)
    ensures
        wrap8(wrap8(sp - 1) + 1) == sp,
        wrap8(wrap8(sp + 1) - 1) == sp,
        wrap8(sp - 1) != sp,
        wrap8(wrap8(sp - 1) - 1) != sp,
        wrap8(wrap8(sp - 1) - 1) != wrap8(sp - 1),
{
    if sp == 0 {
        assert(wrap8(sp - 1) == 255);
    } else if sp == 1 {
        assert(wrap8(sp - 1) == 0);
    } else {
        assert(wrap8(sp - 1) == sp - 1);
    }
    if sp == 255 {
        assert(wrap8(sp + 1) == 0);
    } else {
        assert(wrap8(sp + 1) == sp + 1);
    }
}

/// A byte pushed is the byte pulled next, and pulling it puts the stack
/// pointer back where it was. Nothing but the one stack cell has changed.
pub proof fn lemma_push_pop_u8(s: Machine, value: u8)
    requires
        s.valid(),
    ensures
        top8(push8(s, value)) == value,
        drop8(push8(s, value)).sp == s.sp,
        drop8(push8(s, value)) == (Machine {
            mem: s.mem.update(stack_addr(s.sp), value),
            ..s
        }),
        push8(s, value).valid(),
{
    lemma_stack_pointer_steps(s.sp);
}

/// A word pushed is the word pulled next, and pulling it puts the stack
/// pointer back where it was. Nothing but the two stack cells has
/// changed.
#[verifier::rlimit(30)]
pub proof fn lemma_push_pop_u16(s: Machine, value: u16)
    requires
        s.valid(),
    ensures
        top16(push16(s, value)) == value,
        drop16(push16(s, value)).sp == s.sp,
        drop16(push16(s, value)) == (Machine { mem: push16(s, value).mem, ..s }),
        push16(s, value).valid(),
        push16(s, value).pc == s.pc,
        push16(s, value).status == s.status,
        forall|i: int|
            0 <= i < s.mem.len() && i != stack_addr(s.sp) && i != stack_addr(wrap8(s.sp - 1))
                ==> push16(s, value).mem[i] == s.mem[i],
{
    let high = push8(s, high_byte(value));
    let both = push8(high, low_byte(value));
    lemma_stack_pointer_steps(s.sp);
    lemma_stack_pointer_steps(high.sp);
    lemma_push_pop_u8(s, high_byte(value));
    lemma_push_pop_u8(high, low_byte(value));
    assert(both == push16(s, value));
    assert(top8(both) == low_byte(value));
    assert(drop8(both).sp == high.sp);
    assert(drop8(both).mem[stack_addr(s.sp)] == high_byte(value));
    assert(top8(drop8(both)) == high_byte(value));
    assert(top16(both) == word_of(low_byte(value), high_byte(value)));
}

/// The stack is last in, first out: a word pushed over a byte leaves the
/// byte in place for the pull after next.
#[verifier::rlimit(30)]
pub proof fn lemma_stack_is_lifo(s: Machine, first: u8, second: u16)
    requires
        s.valid(),
    ensures
        top16(push16(push8(s, first), second)) == second,
        top8(drop16(push16(push8(s, first), second))) == first,
        drop8(drop16(push16(push8(s, first), second))).sp == s.sp,
{
    let under = push8(s, first);
    lemma_stack_pointer_steps(s.sp);
    lemma_push_pop_u8(s, first);
    lemma_push_pop_u16(under, second);
    let pulled = drop16(push16(under, second));
    assert(pulled.sp == under.sp);
    assert(pulled.mem[stack_addr(s.sp)] == first);
}

/// A call followed at once by a return goes on at the instruction after
/// the call, with the stack pointer where it was.
#[verifier::rlimit(30)]
pub proof fn lemma_call_then_return(s: Machine)
    requires
        s.valid(),
    ensures
        rts(jsr(s)).pc == wrap16(s.pc + 3),
        rts(jsr(s)).sp == s.sp,
        jsr(s).pc == immediate_word(s),
        top16(jsr(s)) == wrap16(s.pc + 2),
{
    lemma_push_pop_u16(s, wrap16(s.pc + 2));
}

/// An interrupt request that is taken pushes the program counter and then
/// the status, sets Interrupt-Disable, clears Break and goes to the
/// address in the vector at `0xFFFE`. A return from interrupt then puts
/// program counter, status and stack pointer back exactly.
#[verifier::rlimit(30)]
pub proof fn lemma_interrupt_round_trip(s: Machine)
    requires
        s.valid(),
        !flag(s.status, STS_INT_MASK),
    ensures
        irq(s).valid(),
        flag(irq(s).status, STS_INT_MASK),
        !flag(irq(s).status, STS_BRK_MASK),
        irq(s).pc == word(s.mem, INT_REQ_ADDRESS as u16),
        top8(irq(s)) == s.status,
        top16(drop8(irq(s))) == s.pc,
        rti(irq(s)).pc == s.pc,
        rti(irq(s)).status == s.status,
        rti(irq(s)).sp == s.sp,
        rti(irq(s)) == (Machine { mem: irq(s).mem, ..s }),
{
    lemma_flag_written(with_flag(s.status, STS_BRK_MASK, false), STS_INT_MASK, true);
    lemma_flag_written(s.status, STS_BRK_MASK, false);
    assert(STS_INT_MASK & STS_BRK_MASK == 0) by (bit_vector);
    lemma_flag_untouched(
        with_flag(s.status, STS_BRK_MASK, false),
        STS_INT_MASK,
        STS_BRK_MASK,
        true,
    );
    lemma_push_pop_u16(s, s.pc);
    let p16 = push16(s, s.pc);
    lemma_push_pop_u8(p16, s.status);
}

/// An interrupt request while Interrupt-Disable is set changes nothing.
pub proof fn lemma_interrupt_masked(s: Machine)
    requires
        flag(s.status, STS_INT_MASK),
    ensures
        irq(s) == s,
{
}

/// A non-maskable interrupt is taken whatever Interrupt-Disable says, and a
/// return from interrupt puts program counter, status and stack pointer
/// back exactly.
#[verifier::rlimit(30)]
pub proof fn lemma_nmi_round_trip(s: Machine)
    requires
        s.valid(),
    ensures
        nmi(s).valid(),
        flag(nmi(s).status, STS_INT_MASK),
        !flag(nmi(s).status, STS_BRK_MASK),
        nmi(s).pc == word(s.mem, INT_NOMASK_ADDRESS as u16),
        rti(nmi(s)).pc == s.pc,
        rti(nmi(s)).status == s.status,
        rti(nmi(s)).sp == s.sp,
{
    lemma_flag_written(with_flag(s.status, STS_BRK_MASK, false), STS_INT_MASK, true);
    lemma_flag_written(s.status, STS_BRK_MASK, false);
    assert(STS_INT_MASK & STS_BRK_MASK == 0) by (bit_vector);
    lemma_flag_untouched(
        with_flag(s.status, STS_BRK_MASK, false),
        STS_INT_MASK,
        STS_BRK_MASK,
        true,
    );
    lemma_push_pop_u16(s, s.pc);
    let p16 = push16(s, s.pc);
    lemma_push_pop_u8(p16, s.status);
}

/// A byte without a handler is never executed: the step fails with that
/// byte, and a run of any length over it fails the same way and leaves
/// the state as it found it.
#[verifier::rlimit(30)]
pub proof fn lemma_unknown_opcode_is_fatal(s: Machine, count: nat)
    requires
        !has_handler(cell(s.mem, s.pc)),
    ensures
        step(s) == Err::<Machine, CpuError>(CpuError::UnknownOpcode(cell(s.mem, s.pc))),
        count > 0 ==> run_error(s, count) == Some(CpuError::UnknownOpcode(cell(s.mem, s.pc))),
        run(s, count) == s,
{
    reveal(perform);
}

/// A step succeeds only on a byte that has a handler.
pub proof fn lemma_success_needs_handler(s: Machine)
    requires
        step(s) is Ok,
    ensures
        has_handler(cell(s.mem, s.pc)),
{
    reveal(perform);
}

/// A run that meets an error stops there: running on changes nothing and
/// reports the same error.
pub proof fn lemma_run_stops_at_error(s: Machine, count: nat, more: nat)
    requires
        run_error(s, count) is Some,
    ensures
        run_error(s, count + more) == run_error(s, count),
        run(s, count + more) == run(s, count),
    decreases count,
{
    if count > 0 {
        match step(s) {
            Ok(next) => {
                lemma_run_stops_at_error(next, (count - 1) as nat, more);
            },
            Err(_) => {},
        }
    }
}

/// After a boot Interrupt-Disable is set, the accumulator and the index
/// registers are zero, and the program counter is the word that the reset
/// vector holds once the image is copied.
#[verifier::rlimit(30)]
pub proof fn lemma_boot(s: Machine, image: Seq<u8>)
    requires
        s.valid(),
        image.len() <= s.mem.len(),
    ensures
        model::boot(s, image).valid(),
        flag(model::boot(s, image).status, STS_INT_MASK),
        model::boot(s, image).accu == 0,
        model::boot(s, image).idx_x == 0,
        model::boot(s, image).idx_y == 0,
        model::boot(s, image).pc == word(model::boot(s, image).mem, PC_INIT_ADDRESS as u16),
        forall|i: int| 0 <= i < image.len() ==> model::boot(s, image).mem[i] == image[i],
        forall|i: int| image.len() <= i < s.mem.len() ==> model::boot(s, image).mem[i] == s.mem[i],
{
    lemma_flag_written(s.status, STS_INT_MASK, true);
}

/// A branch that the assembler has filled in reaches its label: the byte
/// that says the distance from the branch to the label takes a branch at
/// that address to the label.
pub proof fn lemma_branch_reaches_label(s: Machine, target: u16)
    requires
        -127 <= target - s.pc <= 127,
    ensures
        model::branch(s, true, distance_byte(target - s.pc)).pc == target,
{
}

} // verus!
