//! Wall-clock-gated ticking.
//!
//! A [`Clock`] stores a target frequency and the timestamp of its last
//! firing; it fires once at least one period has elapsed.  A [`Timer`] is
//! an 8-bit counter that decrements, saturating at zero, whenever its clock
//! fires.  The gating decision itself is a verified function of a plain
//! timestamp (`tick_at`); the convenience methods read the host clock
//! through one trusted call and feed it to that function.

use vstd::prelude::*;

verus! {

use vstd::arithmetic::div_mod::lemma_fundamental_div_mod;
use vstd::arithmetic::div_mod::lemma_mod_bound;

/// Frequency (Hz) of a freshly built clock or timer.
pub const DEFAULT_HZ: u32 = 60;

/// Floor under which the runtime frequency controls refuse to go.
pub const MIN_HZ: u32 = 10;

/// Step of the runtime frequency controls.
pub const HZ_STEP: u32 = 10;

/// Reads the host wall clock, in microseconds.
///
/// Relies on `std::time::SystemTime::elapsed` (of `UNIX_EPOCH`): the result
/// is whatever the host clock reports, and a clock fault reads as zero.
/// Nothing can be promised of the value.
#[verifier::external_body]
pub(crate) fn now_micros() -> u64 {
    match std::time::SystemTime::UNIX_EPOCH.elapsed() {
        Ok(d) => d.as_micros() as u64,
        Err(_) => 0,
    }
}

pub struct Clock {
    /// Target frequency in Hz; strictly positive.
    pub clock_hz: u32,
    /// Timestamp (microseconds) of the last firing.
    pub last_fire_micros: u64,
}

impl Clock {
    pub open spec fn wf(&self) -> bool {
        self.clock_hz >= 1
    }

    /// The gating period in whole microseconds, rounded up: a tick may
    /// never fire before a full 1/frequency seconds have elapsed.
    pub open spec fn spec_period_micros(&self) -> int {
        (1000000int + self.clock_hz - 1) / (self.clock_hz as int)
    }

    /// Whether a tick observed at `now` fires.
    pub open spec fn spec_fires(&self, now: u64) -> bool {
        now >= self.last_fire_micros + self.spec_period_micros()
    }

    /// A clock at the default frequency whose period starts now.
    pub fn new() -> (r: Clock)
        ensures
            r.wf(),
            r.clock_hz == DEFAULT_HZ,
    {
        Clock { clock_hz: DEFAULT_HZ, last_fire_micros: now_micros() }
    }

    /// A clock at the default frequency whose period starts at the given
    /// timestamp.
    pub fn new_at(now: u64) -> (r: Clock)
        ensures
            r.wf(),
            r.clock_hz == DEFAULT_HZ,
            r.last_fire_micros == now,
    {
        Clock { clock_hz: DEFAULT_HZ, last_fire_micros: now }
    }

    pub fn period_micros(&self) -> (r: u64)
        requires
            self.wf(),
        ensures
            r == self.spec_period_micros(),
    {
        (1000000u64 + self.clock_hz as u64 - 1) / (self.clock_hz as u64)
    }

    /// The gating decision against an externally observed timestamp: fires
    /// exactly when one full period has elapsed since the last firing, and
    /// then restarts the period at `now`; otherwise the clock is unchanged.
    pub fn tick_at(&mut self, now: u64) -> (fired: bool)
        requires
            old(self).wf(),
        ensures
            final(self).wf(),
            fired == old(self).spec_fires(now),
            fired ==> *final(self) == (Clock { last_fire_micros: now, ..*old(self) }),
            !fired ==> *final(self) == *old(self),
    {
        let period = self.period_micros();
        if now >= self.last_fire_micros && now - self.last_fire_micros >= period {
            self.last_fire_micros = now;
            true
        } else {
            false
        }
    }

    /// Reads the wall clock and applies the gating decision to what it
    /// said.  The frequency never changes; when nothing fires the clock is
    /// untouched.
    pub fn tick(&mut self) -> (fired: bool)
        requires
            old(self).wf(),
        ensures
            final(self).wf(),
            final(self).clock_hz == old(self).clock_hz,
            !fired ==> *final(self) == *old(self),
            fired ==> exists|now: u64|
                #[trigger] old(self).spec_fires(now)
                && *final(self) == (Clock { last_fire_micros: now, ..*old(self) }),
    {
        let now = now_micros();
        let fired = self.tick_at(now);
        proof {
            if fired {
                assert(old(self).spec_fires(now)
                    && *self == (Clock { last_fire_micros: now, ..*old(self) }));
            }
        }
        fired
    }

    /// Raises the target frequency by one step, saturating below the
    /// largest representable frequency.
    pub fn increase_clock(&mut self)
        requires
            old(self).wf(),
        ensures
            final(self).wf(),
            final(self).last_fire_micros == old(self).last_fire_micros,
            final(self).clock_hz == if old(self).clock_hz + HZ_STEP <= u32::MAX {
                (old(self).clock_hz + HZ_STEP) as u32
            } else {
                old(self).clock_hz
            },
    {
        if self.clock_hz <= u32::MAX - HZ_STEP {
            self.clock_hz += HZ_STEP;
        }
    }

    /// Lowers the target frequency by one step, but never to or below the
    /// floor: a tick must keep firing eventually.
    pub fn decrease_clock(&mut self)
        requires
            old(self).wf(),
        ensures
            final(self).wf(),
            final(self).last_fire_micros == old(self).last_fire_micros,
            final(self).clock_hz == if old(self).clock_hz > MIN_HZ {
                (old(self).clock_hz - HZ_STEP) as u32
            } else {
                old(self).clock_hz
            },
    {
        if self.clock_hz > MIN_HZ {
            self.clock_hz -= HZ_STEP;
        }
    }

    /// Sets the target frequency, clamped to stay strictly positive.
    pub fn set_frequency(&mut self, hz: u32)
        ensures
            final(self).wf(),
            final(self).last_fire_micros == old(self).last_fire_micros,
            final(self).clock_hz == if hz >= 1 { hz } else { 1u32 },
    {
        self.clock_hz = if hz >= 1 { hz } else { 1 };
    }
}

/// Law: the gating decision is exact at every frequency.  With the
/// elapsed time e = now − last firing (in microseconds), a clock fires
/// precisely when e · clock_hz reaches 1,000,000 — that is, once at least
/// 1/frequency seconds have elapsed, and never earlier.
pub proof fn lemma_fires_iff_period_elapsed(c: Clock, now: u64)
    requires
        c.wf(),
        now >= c.last_fire_micros,
    ensures
        c.spec_fires(now) <==> (now - c.last_fire_micros) * c.clock_hz >= 1000000,
{
    let e = now - c.last_fire_micros;
    let h = c.clock_hz as int;
    let p = (1000000int + h - 1) / h;
    lemma_fundamental_div_mod(1000000int + h - 1, h);
    lemma_mod_bound(1000000int + h - 1, h);
    assert(1000000 <= h * p <= 1000000 + h - 1);
    if e >= p {
        assert(e * h >= 1000000) by (nonlinear_arith)
            requires
                e >= p,
                h >= 1,
                h * p >= 1000000,
        ;
    }
    if e * h >= 1000000 {
        assert(e >= p) by (nonlinear_arith)
            requires
                e * h >= 1000000,
                h >= 1,
                h * p <= 1000000 + h - 1,
        ;
    }
}

/// Law: a failed wall-clock read, which `now_micros` maps to zero, never
/// fires a tick — the poll that could not be timed simply does not fire,
/// and the gating decision then leaves the clock unchanged.
pub proof fn lemma_zero_reading_never_fires(c: Clock)
    requires
        c.wf(),
    ensures
        !c.spec_fires(0),
{
    let h = c.clock_hz as int;
    let p = (1000000int + h - 1) / h;
    lemma_fundamental_div_mod(1000000int + h - 1, h);
    lemma_mod_bound(1000000int + h - 1, h);
    assert(h * p >= 1000000);
    assert(p >= 1) by (nonlinear_arith)
        requires
            h >= 1,
            h * p >= 1000000,
    ;
}

/// An 8-bit counter gated by a clock of its own: it decrements once per
/// firing and saturates at zero.
pub struct Timer {
    /// The counter.
    pub tick: u8,
    /// The clock that gates decrements.
    pub clock: Clock,
}

impl Timer {
    pub open spec fn wf(&self) -> bool {
        self.clock.wf()
    }

    /// A full counter gated at the default frequency, with the period
    /// starting now.
    pub fn new() -> (r: Timer)
        ensures
            r.wf(),
            r.tick == 0xFF,
            r.clock.clock_hz == DEFAULT_HZ,
    {
        Timer { tick: 0xFF, clock: Clock::new() }
    }

    /// A full counter gated at the default frequency, with the period
    /// starting at the given timestamp.
    pub fn new_at(now: u64) -> (r: Timer)
        ensures
            r.wf(),
            r.tick == 0xFF,
            r.clock.clock_hz == DEFAULT_HZ,
            r.clock.last_fire_micros == now,
    {
        Timer { tick: 0xFF, clock: Clock::new_at(now) }
    }

    /// Attempts one decrement against an externally observed timestamp.
    /// The decrement happens exactly when the clock fires and the counter
    /// is above zero; a counter at zero stays at zero.
    pub fn tick_at(&mut self, now: u64) -> (fired: bool)
        requires
            old(self).wf(),
        ensures
            final(self).wf(),
            fired == old(self).clock.spec_fires(now),
            final(self).tick == if fired && old(self).tick > 0 {
                (old(self).tick - 1) as u8
            } else {
                old(self).tick
            },
            fired ==> final(self).clock == (Clock {
                last_fire_micros: now,
                ..old(self).clock
            }),
            !fired ==> final(self).clock == old(self).clock,
    {
        let fired = self.clock.tick_at(now);
        if fired && self.tick > 0 {
            self.tick -= 1;
        }
        fired
    }

    /// Reads the wall clock and attempts one decrement against it: when
    /// nothing fires the timer is untouched, and a firing decrements the
    /// counter (saturating) and restarts the period at the reading.
    pub fn tick(&mut self) -> (fired: bool)
        requires
            old(self).wf(),
        ensures
            final(self).wf(),
            final(self).clock.clock_hz == old(self).clock.clock_hz,
            !fired ==> *final(self) == *old(self),
            fired ==> final(self).tick == if old(self).tick > 0 {
                (old(self).tick - 1) as u8
            } else {
                old(self).tick
            },
            fired ==> exists|now: u64|
                #[trigger] old(self).clock.spec_fires(now) && final(self).clock == (Clock {
                    last_fire_micros: now,
                    ..old(self).clock
                }),
    {
        let now = now_micros();
        let fired = self.tick_at(now);
        proof {
            if fired {
                assert(old(self).clock.spec_fires(now) && self.clock == (Clock {
                    last_fire_micros: now,
                    ..old(self).clock
                }));
            }
        }
        fired
    }
}

} // verus!
