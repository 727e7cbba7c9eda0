//! Read-only memory holding a program image.

use vstd::prelude::*;
use crate::mems::Readable;
use crate::util::to_u16;

verus! {

/// A read-only block of bytes, such as a cartridge image.
pub struct Rom8b {
    data: Vec<u8>,
}

impl Rom8b {
    /// A read-only memory whose cells are the bytes of `vec`.
    pub fn from_vec(vec: Vec<u8>) -> (rom: Rom8b)
        ensures
            rom@ == vec@,
    {
        Rom8b { data: vec }
    }
}

impl Readable for Rom8b {
    closed spec fn view(&self) -> Seq<u8> {
        self.data@
    }

    fn read_u8(&self, addr: usize) -> (data: u8) {
        self.data[addr]
    }

    fn read_u16(&self, addr: usize) -> (data: u16) {
        let _len = self.data.len();
        to_u16(self.data[addr + 1], self.data[addr])
    }

    fn size(&self) -> (n: usize) {
        self.data.len()
    }
}

} // verus!
