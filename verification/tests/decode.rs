//! Field extraction and instruction decoding, including the fixed pattern
//! priority.

use chip8::opcodes::{Instr, OpCodes};

fn decode(word: u16) -> Instr {
    OpCodes::new(word).to_instr()
}

#[test]
fn fields_are_extracted() {
    let op = OpCodes::new(0xD123);
    assert_eq!(op.opcode, 0xD123);
    assert_eq!(op.n1, 0xD);
    assert_eq!(op.n2, 0x1);
    assert_eq!(op.n3, 0x2);
    assert_eq!(op.n4, 0x3);
    assert_eq!(op.x, 0x1);
    assert_eq!(op.y, 0x2);
    assert_eq!(op.n, 0x3);
    assert_eq!(op.nn, 0x23);
    assert_eq!(op.nnn, 0x123);
}

#[test]
fn decodes_system_and_jump_instructions() {
    assert_eq!(decode(0x00E0), Instr::ClearScreen);
    assert_eq!(decode(0x00EE), Instr::Ret);
    assert_eq!(decode(0x1ABC), Instr::Jump(0xABC));
    assert_eq!(decode(0x2ABC), Instr::Call(0xABC));
    assert_eq!(decode(0xA123), Instr::SetIndex(0x123));
    assert_eq!(decode(0xB123), Instr::JumpPlusV0(0x123));
}

#[test]
fn decodes_skip_instructions() {
    assert_eq!(decode(0x3A42), Instr::SkipEqImm(0xA, 0x42));
    assert_eq!(decode(0x4A42), Instr::SkipNeImm(0xA, 0x42));
    assert_eq!(decode(0x5AB0), Instr::SkipEqReg(0xA, 0xB));
    assert_eq!(decode(0x9AB0), Instr::SkipNeReg(0xA, 0xB));
    assert_eq!(decode(0xEA9E), Instr::SkipIfKey(0xA));
    assert_eq!(decode(0xEAA1), Instr::SkipIfNotKey(0xA));
}

#[test]
fn decodes_register_instructions() {
    assert_eq!(decode(0x6C10), Instr::SetImm(0xC, 0x10));
    assert_eq!(decode(0x7C10), Instr::AddImm(0xC, 0x10));
    assert_eq!(decode(0x8120), Instr::Assign(1, 2));
    assert_eq!(decode(0x8121), Instr::Or(1, 2));
    assert_eq!(decode(0x8122), Instr::And(1, 2));
    assert_eq!(decode(0x8123), Instr::Xor(1, 2));
    assert_eq!(decode(0x8124), Instr::AddCarry(1, 2));
    assert_eq!(decode(0x8125), Instr::SubBorrow(1, 2));
    assert_eq!(decode(0x8126), Instr::ShiftRight(1, 2));
    assert_eq!(decode(0x8127), Instr::SubReverse(1, 2));
    assert_eq!(decode(0x812E), Instr::ShiftLeft(1, 2));
}

#[test]
fn decodes_misc_instructions() {
    assert_eq!(decode(0xC542), Instr::Random(5, 0x42));
    assert_eq!(decode(0xD51F), Instr::Draw(5, 1, 0xF));
    assert_eq!(decode(0xF507), Instr::ReadDelay(5));
    assert_eq!(decode(0xF515), Instr::SetDelay(5));
    assert_eq!(decode(0xF518), Instr::SetSound(5));
    assert_eq!(decode(0xF51E), Instr::AddIndex(5));
    assert_eq!(decode(0xF50A), Instr::WaitKey(5));
    assert_eq!(decode(0xF529), Instr::FontChar(5));
    assert_eq!(decode(0xF533), Instr::StoreBcd(5));
    assert_eq!(decode(0xF555), Instr::StoreRegs(5));
    assert_eq!(decode(0xF565), Instr::LoadRegs(5));
}

#[test]
fn read_delay_pattern_wildcards_the_third_nibble() {
    // the delay-read pattern fixes only the first and last nibble, and it
    // is tested before the more specific F-patterns
    assert_eq!(decode(0xF117), Instr::ReadDelay(1));
    assert_eq!(decode(0xF5F7), Instr::ReadDelay(5));
}

#[test]
fn unmatched_words_decode_to_unknown() {
    assert_eq!(decode(0x0123), Instr::Unknown(0x0123));
    assert_eq!(decode(0x00E1), Instr::Unknown(0x00E1));
    assert_eq!(decode(0x5AB1), Instr::Unknown(0x5AB1));
    assert_eq!(decode(0x812F), Instr::Unknown(0x812F));
    assert_eq!(decode(0xE123), Instr::Unknown(0xE123));
    assert_eq!(decode(0xF511), Instr::Unknown(0xF511));
}
