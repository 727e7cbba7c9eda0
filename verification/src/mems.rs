//! Byte-addressable memory as the processor sees it.

use vstd::prelude::*;
use crate::util::{word_of, low_byte, high_byte};

pub mod ram;
pub mod rom;

verus! {

/// The little-endian word stored in `bytes` at `addr` and `addr + 1`.
pub open spec fn word_at(bytes: Seq<u8>, addr: int) -> u16
    recommends
        0 <= addr,
        addr + 1 < bytes.len(),
{
    word_of(bytes[addr], bytes[addr + 1])
}

/// `bytes` with `block` copied over the cells `start .. start + block.len()`.
pub open spec fn overlay(bytes: Seq<u8>, start: int, block: Seq<u8>) -> Seq<u8>
    recommends
        0 <= start,
        start + block.len() <= bytes.len(),
{
    Seq::new(
        bytes.len(),
        |i: int|
            if start <= i < start + block.len() {
                block[i - start]
            } else {
                bytes[i]
            },
    )
}

/// A block of byte cells addressed from zero, as far as it can be read.
///
/// The view of a memory is the sequence of its cells.
pub trait Readable {
    /// The cells of the memory, in address order.
    spec fn view(&self) -> Seq<u8>;

    /// Reads the cell at `addr`.
    fn read_u8(&self, addr: usize) -> (data: u8)
        requires
            addr < self@.len(),
        ensures
            data == self@[addr as int],
    ;

    /// Reads the little-endian word at `addr` and `addr + 1`.
    fn read_u16(&self, addr: usize) -> (data: u16)
        requires
            addr + 1 < self@.len(),
        ensures
            data == word_at(self@, addr as int),
    ;

    /// The number of cells.
    fn size(&self) -> (n: usize)
        ensures
            n == self@.len(),
    ;
}

/// A memory whose cells can also be written.
pub trait Memory: Readable {
    /// Stores `data` in the cell at `addr`.
    fn write_u8(&mut self, addr: usize, data: u8)
        requires
            addr < old(self)@.len(),
        ensures
            final(self)@ == old(self)@.update(addr as int, data),
    ;

    /// Stores `data` little-endian: low byte at `addr`, high byte at `addr + 1`.
    fn write_u16(&mut self, addr: usize, data: u16)
        requires
            addr + 1 < old(self)@.len(),
        ensures
            final(self)@ == old(self)@.update(addr as int, low_byte(data)).update(
                addr + 1,
                high_byte(data),
            ),
    ;

    /// Copies the whole of `src` into this memory, starting at `start`.
    fn map<S: Readable>(&mut self, start: usize, src: &S)
        requires
            start + src@.len() <= old(self)@.len(),
        ensures
            final(self)@ == overlay(old(self)@, start as int, src@),
    ;
}

/// A word written little-endian is read back unchanged, and the write
/// touches no cell but the two it names.
pub proof fn lemma_write_then_read_u16(bytes: Seq<u8>, addr: int, data: u16)
    requires
        0 <= addr,
        addr + 1 < bytes.len(),
    ensures
        ({
            let after = bytes.update(addr, low_byte(data)).update(addr + 1, high_byte(data));
            &&& word_at(after, addr) == data
            &&& after.len() == bytes.len()
            &&& forall|i: int|
                0 <= i < bytes.len() && i != addr && i != addr + 1 ==> after[i] == bytes[i]
        }),
{
}

/// A byte written is read back unchanged.
pub proof fn lemma_write_then_read_u8(bytes: Seq<u8>, addr: int, data: u8)
    requires
        0 <= addr < bytes.len(),
    ensures
        bytes.update(addr, data)[addr] == data,
        bytes.update(addr, data).len() == bytes.len(),
{
}

} // verus!
