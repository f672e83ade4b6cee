//! Byte-addressable memory store covering the full 16-bit address space.

use vstd::prelude::*;

verus! {

/// Number of addressable bytes: one for every 16-bit address.
pub const MEM_SIZE: usize = 0x10000;

/// The memory store: a fixed-size byte array indexed by a 16-bit address.
pub struct Ram {
    pub mem: Vec<u8>,
}

impl View for Ram {
    type V = Seq<u8>;

    open spec fn view(&self) -> Seq<u8> {
        self.mem@
    }
}

impl Ram {
    /// A well-formed store holds exactly one byte per 16-bit address.
    pub open spec fn wf(&self) -> bool {
        self@.len() == MEM_SIZE
    }

    /// Fresh memory: every byte is zero.
    pub fn new() -> (r: Ram)
        ensures
            r.wf(),
            forall|a: int| 0 <= a < MEM_SIZE ==> r@[a] == 0u8,
    {
        let mut mem: Vec<u8> = Vec::new();
        while mem.len() < MEM_SIZE
            invariant
                mem.len() <= MEM_SIZE,
                forall|a: int| 0 <= a < mem.len() ==> mem@[a] == 0u8,
            decreases MEM_SIZE - mem.len(),
        {
            mem.push(0u8);
        }
        Ram { mem }
    }

    /// Read the byte stored at `addr`.
    pub fn read_byte(&self, addr: u16) -> (b: u8)
        requires
            self.wf(),
        ensures
            b == self@[addr as int],
    {
        self.mem[addr as usize]
    }

    /// Store `value` at `addr`, leaving every other byte unchanged.
    pub fn write_byte(&mut self, addr: u16, value: u8)
        requires
            old(self).wf(),
        ensures
            final(self).wf(),
            final(self)@ == old(self)@.update(addr as int, value),
    {
        self.mem.set(addr as usize, value);
    }
}

} // verus!
