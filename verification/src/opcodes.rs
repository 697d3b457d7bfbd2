//! Splitting a 16-bit instruction word into its nibble and byte fields,
//! and decoding the fields into one of the instruction kinds.
//!
//! The opcode space is partitioned by patterns in which each nibble is
//! either fixed or a wildcard; `spec_decode` tests the patterns in a fixed
//! priority order, the first full match winning, and leaves everything
//! unmatched as [`Instr::Unknown`].

use vstd::prelude::*;

verus! {

/// A decoded 16-bit instruction word: the four nibbles, the register-index
/// readings `x`/`y` of nibbles 2 and 3, the low nibble `n`, the low byte
/// `nn` and the 12-bit address `nnn`.
pub struct OpCodes {
    pub opcode: u16,
    pub n1: u8,
    pub n2: u8,
    pub n3: u8,
    pub n4: u8,
    pub x: usize,
    pub y: usize,
    pub n: u8,
    pub nn: u8,
    pub nnn: usize,
}

impl OpCodes {
    /// Every field is the stated function of the word.
    pub open spec fn wf(&self) -> bool {
        &&& self.n1 == ((self.opcode >> 12) & 0xF) as u8
        &&& self.n2 == ((self.opcode >> 8) & 0xF) as u8
        &&& self.n3 == ((self.opcode >> 4) & 0xF) as u8
        &&& self.n4 == (self.opcode & 0xF) as u8
        &&& self.x == ((self.opcode >> 8) & 0xF) as usize
        &&& self.y == ((self.opcode >> 4) & 0xF) as usize
        &&& self.n == (self.opcode & 0xF) as u8
        &&& self.nn == (self.opcode & 0xFF) as u8
        &&& self.nnn == (self.opcode & 0xFFF) as usize
    }

    /// Pure field extraction; no state, fully determined by the word.
    pub fn new(opcode: u16) -> (r: OpCodes)
        ensures
            r.opcode == opcode,
            r.wf(),
    {
        let n1 = ((opcode >> 12) & 0xF) as u8;
        let n2 = ((opcode >> 8) & 0xF) as u8;
        let n3 = ((opcode >> 4) & 0xF) as u8;
        let n4 = (opcode & 0xF) as u8;
        OpCodes {
            opcode,
            n1,
            n2,
            n3,
            n4,
            x: ((opcode >> 8) & 0xF) as usize,
            y: ((opcode >> 4) & 0xF) as usize,
            n: (opcode & 0xF) as u8,
            nn: (opcode & 0xFF) as u8,
            nnn: (opcode & 0xFFF) as usize,
        }
    }

    /// Decodes the fields into an instruction kind.
    pub fn to_instr(&self) -> (i: Instr)
        requires
            self.wf(),
        ensures
            i == spec_decode(self.opcode),
    {
        if self.opcode == 0x00E0 {
            Instr::ClearScreen
        } else if self.n1 == 0x1 {
            Instr::Jump(self.nnn)
        } else if self.opcode == 0x00EE {
            Instr::Ret
        } else if self.n1 == 0x2 {
            Instr::Call(self.nnn)
        } else if self.n1 == 0x3 {
            Instr::SkipEqImm(self.x, self.nn)
        } else if self.n1 == 0x4 {
            Instr::SkipNeImm(self.x, self.nn)
        } else if self.n1 == 0x5 && self.n4 == 0x0 {
            Instr::SkipEqReg(self.x, self.y)
        } else if self.n1 == 0x9 && self.n4 == 0x0 {
            Instr::SkipNeReg(self.x, self.y)
        } else if self.n1 == 0x6 {
            Instr::SetImm(self.x, self.nn)
        } else if self.n1 == 0x7 {
            Instr::AddImm(self.x, self.nn)
        } else if self.n1 == 0x8 && self.n4 == 0x0 {
            Instr::Assign(self.x, self.y)
        } else if self.n1 == 0x8 && self.n4 == 0x1 {
            Instr::Or(self.x, self.y)
        } else if self.n1 == 0x8 && self.n4 == 0x2 {
            Instr::And(self.x, self.y)
        } else if self.n1 == 0x8 && self.n4 == 0x3 {
            Instr::Xor(self.x, self.y)
        } else if self.n1 == 0x8 && self.n4 == 0x4 {
            Instr::AddCarry(self.x, self.y)
        } else if self.n1 == 0x8 && self.n4 == 0x5 {
            Instr::SubBorrow(self.x, self.y)
        } else if self.n1 == 0x8 && self.n4 == 0x6 {
            Instr::ShiftRight(self.x, self.y)
        } else if self.n1 == 0x8 && self.n4 == 0x7 {
            Instr::SubReverse(self.x, self.y)
        } else if self.n1 == 0x8 && self.n4 == 0xE {
            Instr::ShiftLeft(self.x, self.y)
        } else if self.n1 == 0xA {
            Instr::SetIndex(self.nnn)
        } else if self.n1 == 0xB {
            Instr::JumpPlusV0(self.nnn)
        } else if self.n1 == 0xC {
            Instr::Random(self.x, self.nn)
        } else if self.n1 == 0xD {
            Instr::Draw(self.x, self.y, self.n)
        } else if self.n1 == 0xE && self.n3 == 0x9 && self.n4 == 0xE {
            Instr::SkipIfKey(self.x)
        } else if self.n1 == 0xE && self.n3 == 0xA && self.n4 == 0x1 {
            Instr::SkipIfNotKey(self.x)
        } else if self.n1 == 0xF && self.n4 == 0x7 {
            Instr::ReadDelay(self.x)
        } else if self.n1 == 0xF && self.n3 == 0x1 && self.n4 == 0x5 {
            Instr::SetDelay(self.x)
        } else if self.n1 == 0xF && self.n3 == 0x1 && self.n4 == 0x8 {
            Instr::SetSound(self.x)
        } else if self.n1 == 0xF && self.n3 == 0x1 && self.n4 == 0xE {
            Instr::AddIndex(self.x)
        } else if self.n1 == 0xF && self.n3 == 0x0 && self.n4 == 0xA {
            Instr::WaitKey(self.x)
        } else if self.n1 == 0xF && self.n3 == 0x2 && self.n4 == 0x9 {
            Instr::FontChar(self.x)
        } else if self.n1 == 0xF && self.n3 == 0x3 && self.n4 == 0x3 {
            Instr::StoreBcd(self.x)
        } else if self.n1 == 0xF && self.n3 == 0x5 && self.n4 == 0x5 {
            Instr::StoreRegs(self.x)
        } else if self.n1 == 0xF && self.n3 == 0x6 && self.n4 == 0x5 {
            Instr::LoadRegs(self.x)
        } else {
            Instr::Unknown(self.opcode)
        }
    }
}

/// The instruction kinds.  Register indices are carried as `usize`
/// (always below 16 when produced by the decoder), immediates as `u8`,
/// addresses as `usize` (always below 4096 from the decoder).
#[derive(Clone, Copy, Debug, PartialEq, Eq, Structural)]
pub enum Instr {
    /// 00E0: clear the display.
    ClearScreen,
    /// 00EE: pop the stack into the program counter.
    Ret,
    /// 1nnn.
    Jump(usize),
    /// 2nnn.
    Call(usize),
    /// 3xnn.
    SkipEqImm(usize, u8),
    /// 4xnn.
    SkipNeImm(usize, u8),
    /// 5xy0.
    SkipEqReg(usize, usize),
    /// 9xy0.
    SkipNeReg(usize, usize),
    /// 6xnn.
    SetImm(usize, u8),
    /// 7xnn: add without carry, 8-bit wraparound.
    AddImm(usize, u8),
    /// 8xy0.
    Assign(usize, usize),
    /// 8xy1.
    Or(usize, usize),
    /// 8xy2.
    And(usize, usize),
    /// 8xy3.
    Xor(usize, usize),
    /// 8xy4: add with carry into VF.
    AddCarry(usize, usize),
    /// 8xy5: Vx - Vy with not-borrow into VF.
    SubBorrow(usize, usize),
    /// 8xy6.
    ShiftRight(usize, usize),
    /// 8xy7: Vy - Vx with not-borrow into VF.
    SubReverse(usize, usize),
    /// 8xyE.
    ShiftLeft(usize, usize),
    /// Annn.
    SetIndex(usize),
    /// Bnnn.
    JumpPlusV0(usize),
    /// Cxnn.
    Random(usize, u8),
    /// Dxyn.
    Draw(usize, usize, u8),
    /// Ex9E.
    SkipIfKey(usize),
    /// ExA1.
    SkipIfNotKey(usize),
    /// Fx07.
    ReadDelay(usize),
    /// Fx15.
    SetDelay(usize),
    /// Fx18.
    SetSound(usize),
    /// Fx1E.
    AddIndex(usize),
    /// Fx0A: block until a key is pressed.
    WaitKey(usize),
    /// Fx29.
    FontChar(usize),
    /// Fx33.
    StoreBcd(usize),
    /// Fx55.
    StoreRegs(usize),
    /// Fx65.
    LoadRegs(usize),
    /// Anything unmatched; executed as a no-op.
    Unknown(u16),
}

/// The decoder as a mathematical function of the word, in the same
/// priority order the executable decoder tests.
pub open spec fn spec_decode(w: u16) -> Instr {
    let n1 = ((w >> 12) & 0xF) as u8;
    let n3 = ((w >> 4) & 0xF) as u8;
    let n4 = (w & 0xF) as u8;
    let x = ((w >> 8) & 0xF) as usize;
    let y = ((w >> 4) & 0xF) as usize;
    let n = (w & 0xF) as u8;
    let nn = (w & 0xFF) as u8;
    let nnn = (w & 0xFFF) as usize;
    if w == 0x00E0 {
        Instr::ClearScreen
    } else if n1 == 0x1 {
        Instr::Jump(nnn)
    } else if w == 0x00EE {
        Instr::Ret
    } else if n1 == 0x2 {
        Instr::Call(nnn)
    } else if n1 == 0x3 {
        Instr::SkipEqImm(x, nn)
    } else if n1 == 0x4 {
        Instr::SkipNeImm(x, nn)
    } else if n1 == 0x5 && n4 == 0x0 {
        Instr::SkipEqReg(x, y)
    } else if n1 == 0x9 && n4 == 0x0 {
        Instr::SkipNeReg(x, y)
    } else if n1 == 0x6 {
        Instr::SetImm(x, nn)
    } else if n1 == 0x7 {
        Instr::AddImm(x, nn)
    } else if n1 == 0x8 && n4 == 0x0 {
        Instr::Assign(x, y)
    } else if n1 == 0x8 && n4 == 0x1 {
        Instr::Or(x, y)
    } else if n1 == 0x8 && n4 == 0x2 {
        Instr::And(x, y)
    } else if n1 == 0x8 && n4 == 0x3 {
        Instr::Xor(x, y)
    } else if n1 == 0x8 && n4 == 0x4 {
        Instr::AddCarry(x, y)
    } else if n1 == 0x8 && n4 == 0x5 {
        Instr::SubBorrow(x, y)
    } else if n1 == 0x8 && n4 == 0x6 {
        Instr::ShiftRight(x, y)
    } else if n1 == 0x8 && n4 == 0x7 {
        Instr::SubReverse(x, y)
    } else if n1 == 0x8 && n4 == 0xE {
        Instr::ShiftLeft(x, y)
    } else if n1 == 0xA {
        Instr::SetIndex(nnn)
    } else if n1 == 0xB {
        Instr::JumpPlusV0(nnn)
    } else if n1 == 0xC {
        Instr::Random(x, nn)
    } else if n1 == 0xD {
        Instr::Draw(x, y, n)
    } else if n1 == 0xE && n3 == 0x9 && n4 == 0xE {
        Instr::SkipIfKey(x)
    } else if n1 == 0xE && n3 == 0xA && n4 == 0x1 {
        Instr::SkipIfNotKey(x)
    } else if n1 == 0xF && n4 == 0x7 {
        Instr::ReadDelay(x)
    } else if n1 == 0xF && n3 == 0x1 && n4 == 0x5 {
        Instr::SetDelay(x)
    } else if n1 == 0xF && n3 == 0x1 && n4 == 0x8 {
        Instr::SetSound(x)
    } else if n1 == 0xF && n3 == 0x1 && n4 == 0xE {
        Instr::AddIndex(x)
    } else if n1 == 0xF && n3 == 0x0 && n4 == 0xA {
        Instr::WaitKey(x)
    } else if n1 == 0xF && n3 == 0x2 && n4 == 0x9 {
        Instr::FontChar(x)
    } else if n1 == 0xF && n3 == 0x3 && n4 == 0x3 {
        Instr::StoreBcd(x)
    } else if n1 == 0xF && n3 == 0x5 && n4 == 0x5 {
        Instr::StoreRegs(x)
    } else if n1 == 0xF && n3 == 0x6 && n4 == 0x5 {
        Instr::LoadRegs(x)
    } else {
        Instr::Unknown(w)
    }
}

/// Field bounds every decoded instruction satisfies: register indices
/// below 16, sprite heights below 16, addresses below 4096.
pub open spec fn instr_ok(i: Instr) -> bool {
    match i {
        Instr::ClearScreen => true,
        Instr::Ret => true,
        Instr::Jump(nnn) => nnn < 4096,
        Instr::Call(nnn) => nnn < 4096,
        Instr::SkipEqImm(x, _) => x < 16,
        Instr::SkipNeImm(x, _) => x < 16,
        Instr::SkipEqReg(x, y) => x < 16 && y < 16,
        Instr::SkipNeReg(x, y) => x < 16 && y < 16,
        Instr::SetImm(x, _) => x < 16,
        Instr::AddImm(x, _) => x < 16,
        Instr::Assign(x, y) => x < 16 && y < 16,
        Instr::Or(x, y) => x < 16 && y < 16,
        Instr::And(x, y) => x < 16 && y < 16,
        Instr::Xor(x, y) => x < 16 && y < 16,
        Instr::AddCarry(x, y) => x < 16 && y < 16,
        Instr::SubBorrow(x, y) => x < 16 && y < 16,
        Instr::ShiftRight(x, y) => x < 16 && y < 16,
        Instr::SubReverse(x, y) => x < 16 && y < 16,
        Instr::ShiftLeft(x, y) => x < 16 && y < 16,
        Instr::SetIndex(nnn) => nnn < 4096,
        Instr::JumpPlusV0(nnn) => nnn < 4096,
        Instr::Random(x, _) => x < 16,
        Instr::Draw(x, y, n) => x < 16 && y < 16 && n < 16,
        Instr::SkipIfKey(x) => x < 16,
        Instr::SkipIfNotKey(x) => x < 16,
        Instr::ReadDelay(x) => x < 16,
        Instr::SetDelay(x) => x < 16,
        Instr::SetSound(x) => x < 16,
        Instr::AddIndex(x) => x < 16,
        Instr::WaitKey(x) => x < 16,
        Instr::FontChar(x) => x < 16,
        Instr::StoreBcd(x) => x < 16,
        Instr::StoreRegs(x) => x < 16,
        Instr::LoadRegs(x) => x < 16,
        Instr::Unknown(_) => true,
    }
}

/// Whatever the word, the decoder hands out an instruction within the
/// field bounds.
pub proof fn lemma_decode_ok(w: u16)
    ensures
        instr_ok(spec_decode(w)),
{
    assert(((w >> 12) & 0xF) < 16) by (bit_vector);
    assert(((w >> 8) & 0xF) < 16) by (bit_vector);
    assert(((w >> 4) & 0xF) < 16) by (bit_vector);
    assert((w & 0xF) < 16) by (bit_vector);
    assert((w & 0xFFF) < 4096) by (bit_vector);
}

} // verus!
