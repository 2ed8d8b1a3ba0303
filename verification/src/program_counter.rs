//! The program counter: the 16-bit address of the next instruction to fetch.
//!
//! Execution starts at `0x200`, the conventional program load address. Each
//! instruction is two bytes wide, so the counter moves in steps of two; the
//! backward step exists only to replay the blocking key-wait instruction.

use vstd::prelude::*;

verus! {

/// The address at which a loaded program begins executing.
pub const PROGRAM_START: u16 = 0x200;

pub struct ProgramCounter {
    counter: u16,
}

impl ProgramCounter {
    /// The current fetch address.
    pub closed spec fn spec_get(self) -> u16 {
        self.counter
    }

    pub fn new() -> (r: ProgramCounter)
        ensures
            r.spec_get() == PROGRAM_START,
    {
        ProgramCounter { counter: PROGRAM_START }
    }

    /// Advance past one two-byte instruction.
    pub fn increment(&mut self)
        requires
            old(self).spec_get() + 2 <= u16::MAX,
        ensures
            final(self).spec_get() == old(self).spec_get() + 2,
    {
        self.counter = self.counter + 2;
    }

    /// Step back one instruction, so the same fetch address is replayed.
    pub fn decrement(&mut self)
        requires
            old(self).spec_get() >= 2,
        ensures
            final(self).spec_get() == old(self).spec_get() - 2,
    {
        self.counter = self.counter - 2;
    }

    pub fn set(&mut self, new_counter_value: u16)
        ensures
            final(self).spec_get() == new_counter_value,
    {
        self.counter = new_counter_value;
    }

    pub fn get(&self) -> (r: u16)
        ensures
            r == self.spec_get(),
    {
        self.counter
    }
}

} // verus!
