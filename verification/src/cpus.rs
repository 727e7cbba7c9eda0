//! Processors: what every engine offers, and the engines themselves.

use vstd::prelude::*;
use crate::cpus::mcs6502::model::{
    boot, drop16, drop8, push16, push8, reset, run, run_error, stack_addr, step, top16, top8, wrap8,
    Machine,
};
use crate::cpus::mcs6502::{CpuDump, CpuError};
use crate::mems::{Memory, Readable};

pub mod mcs6502;

verus! {

/// An execution engine that owns a memory of type `M`.
///
/// `machine` is the engine's state as a plain value; every contract below
/// is stated over it. An engine is ready once its memory covers the whole
/// address space, that is once `machine().valid()`.
pub trait Cpu<M: Memory> {
    /// The state of the engine.
    spec fn machine(&self) -> Machine;

    /// The memory, to read and to change between steps.
    fn memory(&mut self) -> (ram: &mut M)
        ensures
            ram@ == old(self).machine().mem,
            final(self).machine() == (Machine { mem: final(ram)@, ..old(self).machine() }),
    ;

    /// Copies the image `cart` to the start of memory and then resets the
    /// processor: the program counter comes from the reset vector as it
    /// stands after the copy, and Interrupt-Disable is set.
    fn boot<C: Readable>(&mut self, cart: &C)
        requires
            old(self).machine().valid(),
            cart@.len() <= old(self).machine().mem.len(),
        ensures
            final(self).machine() == boot(old(self).machine(), cart@),
            final(self).machine().valid(),
    ;

    /// Resets the processor: accumulator and index registers cleared, the
    /// stack pointer two cells below the top of the stack page,
    /// Interrupt-Disable set, the program counter taken from the reset
    /// vector.
    fn restart(&mut self)
        requires
            old(self).machine().valid(),
        ensures
            final(self).machine() == reset(old(self).machine()),
            final(self).machine().valid(),
    ;

    /// Executes the instruction at the program counter. On an error
    /// nothing has changed.
    fn execute(&mut self) -> (done: Result<(), CpuError>)
        requires
            old(self).machine().valid(),
        ensures
            final(self).machine().valid(),
            match step(old(self).machine()) {
                Ok(next) => done is Ok && final(self).machine() == next,
                Err(e) => done == Err::<(), CpuError>(e) && final(self).machine() == old(
                    self,
                ).machine(),
            },
    ;

    /// Executes up to `count` instructions and stops before the first one
    /// that fails.
    fn run(&mut self, count: usize) -> (done: Result<(), CpuError>)
        requires
            old(self).machine().valid(),
        ensures
            final(self).machine().valid(),
            final(self).machine() == run(old(self).machine(), count as nat),
            match run_error(old(self).machine(), count as nat) {
                Some(e) => done == Err::<(), CpuError>(e),
                None => done is Ok,
            },
    ;

    /// The registers and the stack as they are now, for a diagnostic
    /// listing.
    fn dump(&self) -> (listing: CpuDump)
        requires
            self.machine().valid(),
        ensures
            listing.shows(self.machine()),
    ;

    /// The program counter, counted from where the program image starts.
    fn pc(&self) -> (pc: usize)
        ensures
            pc == self.machine().pc,
    ;
}

/// The hardware stack of a processor.
///
/// `stack_machine` is the processor's state as a plain value.
pub trait Stack {
    /// The state of the processor.
    spec fn stack_machine(&self) -> Machine;

    /// Moves the stack pointer down by one, from `0x00` round to `0xFF`.
    fn sp_dec(&mut self)
        ensures
            final(self).stack_machine() == (Machine {
                sp: wrap8(old(self).stack_machine().sp - 1),
                ..old(self).stack_machine()
            }),
    ;

    /// Moves the stack pointer up by one, from `0xFF` round to `0x00`.
    fn sp_inc(&mut self)
        ensures
            final(self).stack_machine() == drop8(old(self).stack_machine()),
    ;

    /// Pushes a byte.
    fn push_u8(&mut self, data: u8)
        requires
            old(self).stack_machine().valid(),
        ensures
            final(self).stack_machine() == push8(old(self).stack_machine(), data),
    ;

    /// Pushes a word, high byte first.
    fn push_u16(&mut self, data: u16)
        requires
            old(self).stack_machine().valid(),
        ensures
            final(self).stack_machine() == push16(old(self).stack_machine(), data),
    ;

    /// Pulls a byte.
    fn pop_u8(&mut self) -> (data: u8)
        requires
            old(self).stack_machine().valid(),
        ensures
            data == top8(old(self).stack_machine()),
            final(self).stack_machine() == drop8(old(self).stack_machine()),
    ;

    /// Pulls a word, low byte first.
    fn pop_u16(&mut self) -> (data: u16)
        requires
            old(self).stack_machine().valid(),
        ensures
            data == top16(old(self).stack_machine()),
            final(self).stack_machine() == drop16(old(self).stack_machine()),
    ;

    /// The address of the cell that the stack pointer names.
    fn sp(&self) -> (addr: usize)
        ensures
            addr == stack_addr(self.stack_machine().sp),
    ;
}

} // verus!
