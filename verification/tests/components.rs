//! The standalone components: register file, program counter and keypad.

use chip8::keypad::Keypad;
use chip8::program_counter::ProgramCounter;
use chip8::registers::Registers;

#[test]
fn registers_start_zeroed_with_pc_at_rom_start() {
    let r = Registers::new();
    for k in 0..16 {
        assert_eq!(r.get(k), 0);
    }
    assert_eq!(r.pc, 0x200);
    assert_eq!(r.i, 0);
}

#[test]
fn registers_set_and_get() {
    let mut r = Registers::new();
    r.set(0x0, 1);
    r.set(0xF, 255);
    r.set(0x7, 42);
    assert_eq!(r.get(0x0), 1);
    assert_eq!(r.get(0xF), 255);
    assert_eq!(r.get(0x7), 42);
    assert_eq!(r.get(0x8), 0);
}

#[test]
fn registers_pc_moves_in_instruction_steps() {
    let mut r = Registers::new();
    r.increment_pc();
    assert_eq!(r.pc, 0x202);
    r.decrement_pc();
    assert_eq!(r.pc, 0x200);
    r.pc = 0x555;
    r.reset_pc();
    assert_eq!(r.pc, 0x200);
}

#[test]
fn program_counter_steps_by_two() {
    let mut pc = ProgramCounter::new();
    assert_eq!(pc.0, 0x200);
    pc.increment();
    assert_eq!(pc.0, 0x202);
    pc.decrement();
    assert_eq!(pc.0, 0x200);
}

#[test]
fn keypad_latches_press_and_release() {
    let mut k = Keypad::new();
    for i in 0..16 {
        assert!(!k.get_status(i));
    }
    k.press(3);
    assert!(k.get_status(3));
    assert!(!k.get_status(4));
    k.release(3);
    assert!(!k.get_status(3));
}

#[test]
fn being_pressed_picks_the_lowest_index() {
    let mut k = Keypad::new();
    assert_eq!(k.being_pressed(), None);
    k.press(0xB);
    assert_eq!(k.being_pressed(), Some(0xB));
    k.press(0x2);
    assert_eq!(k.being_pressed(), Some(0x2));
    k.press(0x0);
    assert_eq!(k.being_pressed(), Some(0x0));
    k.release(0x0);
    k.release(0x2);
    assert_eq!(k.being_pressed(), Some(0xB));
}
