//! The flat byte-addressable store. Out-of-range access is a typed error,
//! never silent truncation and never a panic.

use vstd::prelude::*;
use crate::error::Chip8Error;

verus! {

/// Number of bytes in the backing store.
pub const MEMORY_SIZE: usize = 4096;

/// The machine's memory: `MEMORY_SIZE` bytes, addressed `0..MEMORY_SIZE`.
pub struct Ram {
    mem: Vec<u8>,
}

impl View for Ram {
    type V = Seq<u8>;

    closed spec fn view(&self) -> Seq<u8> {
        self.mem@
    }
}

impl Ram {
    /// The store always holds exactly `MEMORY_SIZE` bytes.
    pub open spec fn wf(&self) -> bool {
        self@.len() == MEMORY_SIZE
    }

    /// A fresh store, all bytes zero.
    pub fn new() -> (r: Ram)
        ensures
            r.wf(),
            forall|a: int| 0 <= a < MEMORY_SIZE ==> r@[a] == 0u8,
    {
        let mut mem: Vec<u8> = Vec::new();
        let mut k: usize = 0;
        while k < MEMORY_SIZE
            invariant
                k <= MEMORY_SIZE,
                mem@.len() == k,
                forall|a: int| 0 <= a < k ==> mem@[a] == 0u8,
            decreases MEMORY_SIZE - k,
        {
            mem.push(0u8);
            k = k + 1;
        }
        Ram { mem }
    }

    /// Writes one byte. Fails with `MemoryOutOfBounds`, mutating nothing,
    /// exactly when the address is outside the store.
    pub fn write_byte(&mut self, address: u16, value: u8) -> (r: Result<(), Chip8Error>)
        requires
            old(self).wf(),
        ensures
            final(self).wf(),
            address < MEMORY_SIZE ==> r is Ok && final(self)@ == old(self)@.update(
                address as int,
                value,
            ),
            address >= MEMORY_SIZE ==> r == Err::<(), Chip8Error>(
                Chip8Error::MemoryOutOfBounds { address },
            ) && final(self)@ == old(self)@,
    {
        if (address as usize) < MEMORY_SIZE {
            self.mem.set(address as usize, value);
            Ok(())
        } else {
            Err(Chip8Error::MemoryOutOfBounds { address })
        }
    }

    /// Reads one byte. Fails with `MemoryOutOfBounds` exactly when the
    /// address is outside the store.
    pub fn read_byte(&self, address: u16) -> (r: Result<u8, Chip8Error>)
        requires
            self.wf(),
        ensures
            address < MEMORY_SIZE ==> r == Ok::<u8, Chip8Error>(self@[address as int]),
            address >= MEMORY_SIZE ==> r == Err::<u8, Chip8Error>(
                Chip8Error::MemoryOutOfBounds { address },
            ),
    {
        if (address as usize) < MEMORY_SIZE {
            Ok(self.mem[address as usize])
        } else {
            Err(Chip8Error::MemoryOutOfBounds { address })
        }
    }
}

} // verus!
