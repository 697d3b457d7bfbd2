//! Clocks and timers: gating by elapsed time, saturation, and the runtime
//! frequency controls.

use chip8::clock::{Clock, Timer};
use chip8::cpu::CPU;

#[test]
fn a_1000_hz_clock_fires_only_after_its_period() {
    let mut c = Clock::new_at(0);
    c.set_frequency(1000);
    // two calls within 0.5 ms total: the second (and the first) say no
    assert!(!c.tick_at(300));
    assert!(!c.tick_at(499));
    // once a whole millisecond has passed, the tick fires
    assert!(c.tick_at(1100));
    // and the period restarts at the firing time
    assert!(!c.tick_at(2000));
    assert!(c.tick_at(2100));
}

#[test]
fn a_fresh_clock_runs_at_60_hz() {
    let mut c = Clock::new_at(0);
    assert_eq!(c.clock_hz, 60);
    // 1/60 s in whole microseconds, rounded up so no tick comes early
    assert_eq!(c.period_micros(), 16667);
    assert!(!c.tick_at(16666));
    assert!(c.tick_at(16667));
}

#[test]
fn a_clock_ignores_time_running_backwards() {
    let mut c = Clock::new_at(50_000);
    assert!(!c.tick_at(0));
    assert!(c.tick_at(50_000 + 16667));
}

#[test]
fn frequency_controls_step_and_clamp() {
    let mut c = Clock::new_at(0);
    c.increase_clock();
    assert_eq!(c.clock_hz, 70);
    c.decrease_clock();
    assert_eq!(c.clock_hz, 60);
    // the floor: decreasing stops at 10 Hz
    for _ in 0..20 {
        c.decrease_clock();
    }
    assert_eq!(c.clock_hz, 10);
    c.decrease_clock();
    assert_eq!(c.clock_hz, 10);
    // setting a frequency of zero is clamped to stay positive
    c.set_frequency(0);
    assert_eq!(c.clock_hz, 1);
    c.set_frequency(500);
    assert_eq!(c.clock_hz, 500);
}

#[test]
fn a_timer_decrements_once_per_firing() {
    let mut t = Timer::new_at(0);
    assert_eq!(t.tick, 0xFF);
    assert!(!t.tick_at(100));
    assert_eq!(t.tick, 0xFF);
    assert!(t.tick_at(16667));
    assert_eq!(t.tick, 0xFE);
    // not yet a full period since the last firing
    assert!(!t.tick_at(20000));
    assert_eq!(t.tick, 0xFE);
    assert!(t.tick_at(16667 + 16667));
    assert_eq!(t.tick, 0xFD);
}

#[test]
fn a_timer_at_zero_stays_at_zero() {
    let mut t = Timer::new_at(0);
    t.tick = 0;
    assert!(t.tick_at(1_000_000));
    assert_eq!(t.tick, 0);
    assert!(t.tick_at(2_000_000));
    assert_eq!(t.tick, 0);
}

#[test]
fn machine_clock_controls_step_by_10() {
    let mut cpu = CPU::new();
    cpu.increase_clock();
    cpu.increase_clock();
    cpu.decrease_clock();
    // observable only through behaviour elsewhere; here the calls must
    // simply not disturb the machine state
    assert_eq!(cpu.get_pc(), 0x200);
    assert_eq!(cpu.get_delay_timer(), 0xFF);
}

#[test]
fn machine_timer_polls_do_not_raise_counters() {
    let mut cpu = CPU::new();
    for _ in 0..5 {
        cpu.tick_delay_timer();
        cpu.tick_sound_timer();
        cpu.tick();
    }
    // freshly built timers can only have counted down
    assert!(cpu.get_delay_timer() <= 0xFF);
    assert!(cpu.get_sound_timer() <= 0xFF);
    assert_eq!(cpu.get_pc(), 0x200);
}

#[test]
fn a_wall_clock_tick_eventually_fires() {
    let mut c = Clock::new();
    c.set_frequency(1000); // one millisecond period
    let mut fired = false;
    for _ in 0..50_000_000u64 {
        if c.tick() {
            fired = true;
            break;
        }
    }
    assert!(fired);
}
