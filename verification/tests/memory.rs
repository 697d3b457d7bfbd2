//! Memory: byte and word access, font placement, ROM loading.

use chip8::ram::RAM;

#[test]
fn write8_then_read8_round_trips() {
    let mut ram = RAM::new();
    ram.write8(0x123, 0xAB);
    assert_eq!(ram.read8(0x123), 0xAB);
    ram.write8(0, 1);
    assert_eq!(ram.read8(0), 1);
    ram.write8(4095, 0xFF);
    assert_eq!(ram.read8(4095), 0xFF);
}

#[test]
fn read16_is_big_endian() {
    let mut ram = RAM::new();
    ram.write8(0x200, 0x12);
    ram.write8(0x201, 0x34);
    assert_eq!(ram.read16(0x200), 0x1234);
    assert_eq!(
        ram.read16(0x200),
        ((ram.read8(0x200) as u16) << 8) | ram.read8(0x201) as u16
    );
}

#[test]
fn new_memory_is_zeroed() {
    let ram = RAM::new();
    assert_eq!(ram.read8(0), 0);
    assert_eq!(ram.read8(0x200), 0);
    assert_eq!(ram.read8(4095), 0);
}

#[test]
fn fonts_land_in_the_font_region() {
    let mut ram = RAM::new();
    ram.init_fonts();
    assert_eq!(ram.get_font_address(), 0x50);
    // glyph 0 starts with 0xF0, 0x90
    assert_eq!(ram.read8(0x50), 0xF0);
    assert_eq!(ram.read8(0x51), 0x90);
    // glyph 1 (five bytes in) starts with 0x20
    assert_eq!(ram.read8(0x55), 0x20);
    // last byte of glyph F
    assert_eq!(ram.read8(0x9F), 0x80);
    // neighbours untouched
    assert_eq!(ram.read8(0x4F), 0);
    assert_eq!(ram.read8(0xA0), 0);
}

#[test]
fn load_rom_places_bytes_at_rom_address() {
    let mut ram = RAM::new();
    let rom = vec![0xDE, 0xAD, 0xBE, 0xEF];
    assert!(ram.load_rom(&rom));
    for (k, b) in rom.iter().enumerate() {
        assert_eq!(ram.read8(0x200 + k), *b);
    }
    assert_eq!(ram.read8(0x1FF), 0);
    assert_eq!(ram.read8(0x204), 0);
}

#[test]
fn load_rom_accepts_the_largest_image() {
    let mut ram = RAM::new();
    let rom = vec![0x7Eu8; 4096 - 0x200];
    assert!(ram.load_rom(&rom));
    assert_eq!(ram.read8(0x200), 0x7E);
    assert_eq!(ram.read8(4095), 0x7E);
}

#[test]
fn load_rom_rejects_an_oversized_image() {
    let mut ram = RAM::new();
    ram.write8(0x200, 9);
    let rom = vec![0x7Eu8; 4096 - 0x200 + 1];
    assert!(!ram.load_rom(&rom));
    // nothing was written
    assert_eq!(ram.read8(0x200), 9);
    assert_eq!(ram.read8(0x201), 0);
}
