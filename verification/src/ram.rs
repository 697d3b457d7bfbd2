//! Flat addressable byte store with a fixed font-glyph region and a
//! ROM-load region.

use vstd::prelude::*;

verus! {

/// Number of addressable bytes.
pub const MEMORY_SIZE: usize = 4096;

/// First address of the 80-byte font-glyph region.
pub const FONT_ADDRESS: usize = 0x50;

/// Address at which ROM images are placed.
pub const ROM_ADDRESS: usize = 0x200;

/// The fixed glyph table: 16 glyphs (hexadecimal digits 0-F), 5 bytes each.
pub open spec fn font_table() -> Seq<u8> {
    seq![
        0xF0u8, 0x90, 0x90, 0x90, 0xF0, // 0
        0x20, 0x60, 0x20, 0x20, 0x70, // 1
        0xF0, 0x10, 0xF0, 0x80, 0xF0, // 2
        0xF0, 0x10, 0xF0, 0x10, 0xF0, // 3
        0x90, 0x90, 0xF0, 0x10, 0x10, // 4
        0xF0, 0x80, 0xF0, 0x10, 0xF0, // 5
        0xF0, 0x80, 0xF0, 0x90, 0xF0, // 6
        0xF0, 0x10, 0x20, 0x40, 0x40, // 7
        0xF0, 0x90, 0xF0, 0x90, 0xF0, // 8
        0xF0, 0x90, 0xF0, 0x10, 0xF0, // 9
        0xF0, 0x90, 0xF0, 0x90, 0x90, // A
        0xE0, 0x90, 0xE0, 0x90, 0xE0, // B
        0xF0, 0x80, 0x80, 0x80, 0xF0, // C
        0xE0, 0x90, 0x90, 0x90, 0xE0, // D
        0xF0, 0x80, 0xF0, 0x80, 0xF0, // E
        0xF0, 0x80, 0xF0, 0x80, 0x80, // F
    ]
}

pub struct RAM {
    bytes: Vec<u8>,
}

impl View for RAM {
    type V = Seq<u8>;

    closed spec fn view(&self) -> Seq<u8> {
        self.bytes@
    }
}

impl RAM {
    /// The memory is well formed when it spans exactly the addressable range.
    pub open spec fn wf(&self) -> bool {
        self@.len() == MEMORY_SIZE
    }

    /// Fresh memory: every byte zero.
    pub fn new() -> (r: RAM)
        ensures
            r.wf(),
            r@ == Seq::new(MEMORY_SIZE as nat, |a: int| 0u8),
    {
        let mut bytes: Vec<u8> = Vec::new();
        while bytes.len() < MEMORY_SIZE
            invariant
                bytes@ == Seq::new(bytes@.len(), |a: int| 0u8),
                bytes@.len() <= MEMORY_SIZE,
            decreases MEMORY_SIZE - bytes@.len(),
        {
            bytes.push(0u8);
            proof {
                assert(bytes@ =~= Seq::new(bytes@.len(), |a: int| 0u8));
            }
        }
        RAM { bytes }
    }

    /// Copies the fixed glyph table into the font region; all other bytes
    /// keep their value.
    pub fn init_fonts(&mut self)
        requires
            old(self).wf(),
        ensures
            final(self).wf(),
            forall|k: int|
                0 <= k < 80 ==> final(self)@[FONT_ADDRESS + k] == font_table()[k],
            forall|a: int|
                0 <= a < MEMORY_SIZE && !(FONT_ADDRESS <= a < FONT_ADDRESS + 80)
                    ==> final(self)@[a] == old(self)@[a],
    {
        let fonts: [u8; 80] = [
            0xF0u8, 0x90, 0x90, 0x90, 0xF0, // 0
            0x20, 0x60, 0x20, 0x20, 0x70, // 1
            0xF0, 0x10, 0xF0, 0x80, 0xF0, // 2
            0xF0, 0x10, 0xF0, 0x10, 0xF0, // 3
            0x90, 0x90, 0xF0, 0x10, 0x10, // 4
            0xF0, 0x80, 0xF0, 0x10, 0xF0, // 5
            0xF0, 0x80, 0xF0, 0x90, 0xF0, // 6
            0xF0, 0x10, 0x20, 0x40, 0x40, // 7
            0xF0, 0x90, 0xF0, 0x90, 0xF0, // 8
            0xF0, 0x90, 0xF0, 0x10, 0xF0, // 9
            0xF0, 0x90, 0xF0, 0x90, 0x90, // A
            0xE0, 0x90, 0xE0, 0x90, 0xE0, // B
            0xF0, 0x80, 0x80, 0x80, 0xF0, // C
            0xE0, 0x90, 0x90, 0x90, 0xE0, // D
            0xF0, 0x80, 0xF0, 0x80, 0xF0, // E
            0xF0, 0x80, 0xF0, 0x80, 0x80, // F
        ];
        proof {
            assert(fonts@ == font_table());
        }
        let mut k: usize = 0;
        while k < 80
            invariant
                0 <= k <= 80,
                fonts@ == font_table(),
                self@.len() == MEMORY_SIZE,
                forall|j: int| 0 <= j < k ==> self@[FONT_ADDRESS + j] == font_table()[j],
                forall|a: int|
                    0 <= a < MEMORY_SIZE && !(FONT_ADDRESS <= a < FONT_ADDRESS + k)
                        ==> self@[a] == old(self)@[a],
            decreases 80 - k,
        {
            self.bytes[FONT_ADDRESS + k] = fonts[k];
            k = k + 1;
        }
    }

    /// Base address of the glyph region.
    pub fn get_font_address(&self) -> (r: usize)
        ensures
            r == FONT_ADDRESS,
    {
        FONT_ADDRESS
    }

    /// Places the ROM image verbatim starting at `ROM_ADDRESS`.  An image
    /// larger than the space after `ROM_ADDRESS` is rejected and the memory
    /// is left untouched.
    pub fn load_rom(&mut self, rom: &[u8]) -> (ok: bool)
        requires
            old(self).wf(),
        ensures
            final(self).wf(),
            ok == (rom@.len() <= MEMORY_SIZE - ROM_ADDRESS),
            ok ==> forall|k: int|
                0 <= k < rom@.len() ==> final(self)@[ROM_ADDRESS + k] == rom@[k],
            ok ==> forall|a: int|
                0 <= a < MEMORY_SIZE && !(ROM_ADDRESS <= a < ROM_ADDRESS + rom@.len())
                    ==> final(self)@[a] == old(self)@[a],
            !ok ==> final(self)@ == old(self)@,
    {
        if rom.len() > MEMORY_SIZE - ROM_ADDRESS {
            return false;
        }
        let mut k: usize = 0;
        while k < rom.len()
            invariant
                0 <= k <= rom@.len(),
                rom@.len() <= MEMORY_SIZE - ROM_ADDRESS,
                self@.len() == MEMORY_SIZE,
                forall|j: int| 0 <= j < k ==> self@[ROM_ADDRESS + j] == rom@[j],
                forall|a: int|
                    0 <= a < MEMORY_SIZE && !(ROM_ADDRESS <= a < ROM_ADDRESS + k)
                        ==> self@[a] == old(self)@[a],
            decreases rom@.len() - k,
        {
            self.bytes[ROM_ADDRESS + k] = rom[k];
            k = k + 1;
        }
        true
    }

    /// Reads one byte.  Addresses outside the store are a programmer error
    /// and excluded by precondition.
    pub fn read8(&self, addr: usize) -> (r: u8)
        requires
            self.wf(),
            addr < MEMORY_SIZE,
        ensures
            r == self@[addr as int],
    {
        self.bytes[addr]
    }

    /// Reads a big-endian 16-bit word: high byte at `addr`, low byte at
    /// `addr + 1`.
    pub fn read16(&self, addr: usize) -> (r: u16)
        requires
            self.wf(),
            addr + 1 < MEMORY_SIZE,
        ensures
            r == ((self@[addr as int] as u16) << 8) | (self@[addr + 1] as u16),
    {
        ((self.bytes[addr] as u16) << 8) | (self.bytes[addr + 1] as u16)
    }

    /// Writes one byte.
    pub fn write8(&mut self, addr: usize, value: u8)
        requires
            old(self).wf(),
            addr < MEMORY_SIZE,
        ensures
            final(self).wf(),
            final(self)@ == old(self)@.update(addr as int, value),
    {
        self.bytes[addr] = value;
    }
}

/// Law: writing a byte and then reading the same address yields exactly the
/// byte written.
pub proof fn lemma_write_then_read(m: Seq<u8>, addr: int, v: u8)
    requires
        0 <= addr < m.len(),
    ensures
        m.update(addr, v)[addr] == v,
{
}

} // verus!
