//! A verified CHIP-8 interpreter core.
//!
//! The crate owns all machine state of the interpreter — memory, registers,
//! call stack, timers, keypad latches and the monochrome pixel grid — and
//! advances that state one instruction at a time.  Every instruction's
//! effect is stated against a mathematical view of the machine and proved.
//! Rendering, ROM file reading and physical-key mapping are left to the
//! embedding program.

pub mod clock;
pub mod cpu;
pub mod display_buffer;
pub mod frame_buffer;
pub mod keypad;
pub mod opcodes;
pub mod program_counter;
pub mod ram;
pub mod registers;
