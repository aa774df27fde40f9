//! The emulated address space the display controller reads from.

use vstd::prelude::*;

verus! {

/// Number of bytes reachable through a 16-bit address.
pub const ADDRESS_SPACE: usize = 0x10000;

/// A flat, byte-addressable memory of [`ADDRESS_SPACE`] bytes.
///
/// Its view is the sequence of its bytes, indexed by address.
pub struct Memory {
    pub bytes: [u8; ADDRESS_SPACE],
}

impl View for Memory {
    type V = Seq<u8>;

    open spec fn view(&self) -> Seq<u8> {
        self.bytes@
    }
}

impl Memory {
    /// A memory with every byte cleared.
    pub fn new() -> (memory: Self)
        ensures
            memory@ == Seq::new(ADDRESS_SPACE as nat, |a: int| 0u8),
    {
        let memory = Memory { bytes: [0u8; ADDRESS_SPACE] };
        assert(memory@ =~= Seq::new(ADDRESS_SPACE as nat, |a: int| 0u8));
        memory
    }

    /// Reads the byte stored at `address`.
    pub fn load(&self, address: u16) -> (value: u8)
        ensures
            value == self@[address as int],
    {
        self.bytes[address as usize]
    }

    /// Writes `value` at `address` and leaves every other byte as it was.
    pub fn store(&mut self, address: u16, value: u8)
        ensures
            final(self)@ == old(self)@.update(address as int, value),
    {
        self.bytes[address as usize] = value;
    }
}

} // verus!
