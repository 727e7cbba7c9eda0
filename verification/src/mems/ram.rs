//! Random-access memory covering the whole 16-bit address space.

use vstd::prelude::*;
use crate::mems::{Memory, Readable, overlay};
use crate::util::{lower, upper, to_u16};

verus! {

/// The number of cells of a `Ram8b64kB`.
pub const RAM_SIZE: usize = 0x10000;

/// 64 KiB of writable memory.
pub struct Ram8b64kB {
    data: Vec<u8>,
}

impl Ram8b64kB {
    /// A memory of 64 KiB with every cell zero.
    pub fn new() -> (ram: Ram8b64kB)
        ensures
            ram@.len() == RAM_SIZE,
            forall|i: int| 0 <= i < RAM_SIZE ==> ram@[i] == 0,
    {
        Ram8b64kB { data: vec![0u8; RAM_SIZE] }
    }
}

impl Readable for Ram8b64kB {
    closed spec fn view(&self) -> Seq<u8> {
        self.data@
    }

    fn read_u8(&self, addr: usize) -> (data: u8) {
        self.data[addr]
    }

    fn read_u16(&self, addr: usize) -> (data: u16) {
        let _len = self.data.len();
        to_u16(self.data[addr + 1], self.data[addr])
    }

    fn size(&self) -> (n: usize) {
        self.data.len()
    }
}

impl Memory for Ram8b64kB {
    fn write_u8(&mut self, addr: usize, data: u8) {
        self.data.set(addr, data);
    }

    fn write_u16(&mut self, addr: usize, data: u16) {
        let _len = self.data.len();
        self.data.set(addr, lower(data));
        self.data.set(addr + 1, upper(data));
    }

    fn map<S: Readable>(&mut self, start: usize, src: &S) {
        let n = src.size();
        let _len = self.data.len();
        let mut i: usize = 0;
        while i < n
            invariant
                i <= n,
                self.data@.len() <= usize::MAX,
                n == src@.len(),
                start + n <= old(self)@.len(),
                self.data@.len() == old(self).data@.len(),
                forall|k: int|
                    0 <= k < self.data@.len() ==> self.data@[k] == (if start <= k < start + i {
                        src@[k - start]
                    } else {
                        old(self).data@[k]
                    }),
            decreases n - i,
        {
            let byte = src.read_u8(i);
            self.data.set(start + i, byte);
            i += 1;
        }
        assert(self.data@ =~= overlay(old(self).data@, start as int, src@));
    }
}

} // verus!
