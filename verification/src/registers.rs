//! The register file: sixteen general-purpose 8-bit registers, the 16-bit
//! index register and the program counter.

use vstd::prelude::*;

verus! {

/// Number of general-purpose registers.
pub const REGISTER_COUNT: usize = 16;

/// The program counter's initial value, the start of the ROM region.
pub const INITIAL_PC: usize = 0x200;

pub struct Registers {
    /// The sixteen general-purpose registers V0..=VF.
    pub gprs: Vec<u8>,
    /// Program counter.
    pub pc: usize,
    /// Index register.
    pub i: usize,
}

impl View for Registers {
    type V = Seq<u8>;

    open spec fn view(&self) -> Seq<u8> {
        self.gprs@
    }
}

impl Registers {
    pub open spec fn wf(&self) -> bool {
        self@.len() == REGISTER_COUNT
    }

    /// All general registers zero, index register zero, program counter at
    /// the start of the ROM region.
    pub fn new() -> (r: Registers)
        ensures
            r.wf(),
            r@ == Seq::new(REGISTER_COUNT as nat, |k: int| 0u8),
            r.pc == INITIAL_PC,
            r.i == 0,
    {
        let mut gprs: Vec<u8> = Vec::new();
        while gprs.len() < REGISTER_COUNT
            invariant
                gprs@ == Seq::new(gprs@.len(), |k: int| 0u8),
                gprs@.len() <= REGISTER_COUNT,
            decreases REGISTER_COUNT - gprs@.len(),
        {
            gprs.push(0u8);
            proof {
                assert(gprs@ =~= Seq::new(gprs@.len(), |k: int| 0u8));
            }
        }
        Registers { gprs, pc: INITIAL_PC, i: 0 }
    }

    /// Reads a general register.  An index outside 0x0..=0xF is a
    /// programmer error and excluded by precondition.
    pub fn get(&self, register: usize) -> (r: u8)
        requires
            self.wf(),
            register < REGISTER_COUNT,
        ensures
            r == self@[register as int],
    {
        self.gprs[register]
    }

    /// Writes a general register.
    pub fn set(&mut self, register: usize, value: u8)
        requires
            old(self).wf(),
            register < REGISTER_COUNT,
        ensures
            final(self).wf(),
            final(self)@ == old(self)@.update(register as int, value),
            final(self).pc == old(self).pc,
            final(self).i == old(self).i,
    {
        self.gprs[register] = value;
    }

    /// Advances the program counter past one 2-byte instruction.
    pub fn increment_pc(&mut self)
        requires
            old(self).pc + 2 <= usize::MAX,
        ensures
            final(self).pc == old(self).pc + 2,
            final(self)@ == old(self)@,
            final(self).i == old(self).i,
    {
        self.pc += 2;
    }

    /// Rewinds the program counter by one 2-byte instruction.
    pub fn decrement_pc(&mut self)
        requires
            old(self).pc >= 2,
        ensures
            final(self).pc == old(self).pc - 2,
            final(self)@ == old(self)@,
            final(self).i == old(self).i,
    {
        self.pc -= 2;
    }

    /// Restarts execution of the loaded ROM: the program counter returns to
    /// its initial value; registers and the index register keep their values.
    pub fn reset_pc(&mut self)
        ensures
            final(self).pc == INITIAL_PC,
            final(self)@ == old(self)@,
            final(self).i == old(self).i,
    {
        self.pc = INITIAL_PC;
    }
}

} // verus!
