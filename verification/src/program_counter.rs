//! A standalone program counter, stepping in 2-byte instruction units.

use vstd::prelude::*;

verus! {

use crate::registers::INITIAL_PC;

pub struct ProgramCounter(pub usize);

impl ProgramCounter {
    /// Starts at the beginning of the ROM region.
    pub fn new() -> (r: ProgramCounter)
        ensures
            r.0 == INITIAL_PC,
    {
        ProgramCounter(INITIAL_PC)
    }

    /// Advances past one instruction.
    pub fn increment(&mut self)
        requires
            old(self).0 + 2 <= usize::MAX,
        ensures
            final(self).0 == old(self).0 + 2,
    {
        self.0 += 2;
    }

    /// Rewinds by one instruction.
    pub fn decrement(&mut self)
        requires
            old(self).0 >= 2,
        ensures
            final(self).0 == old(self).0 - 2,
    {
        self.0 -= 2;
    }
}

} // verus!
