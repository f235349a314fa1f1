//! SiFive PWM controller register model: a scaled counter compared
//! against four channels.
use vstd::prelude::*;

verus! {

pub const R_CONFIG: u64 = 0x00;
pub const R_COUNT: u64 = 0x08;
pub const R_PWMS: u64 = 0x10;
pub const R_PWM_COMPARE0: u64 = 0x20;
pub const R_PWM_COMPARE1: u64 = 0x24;
pub const R_PWM_COMPARE2: u64 = 0x28;
pub const R_PWM_COMPARE3: u64 = 0x2C;
pub const PWM_COMPARE_MASK: u32 = 0xFFFF;
pub const PWMCOUNT_MASK: u32 = 0x7FFF_FFFF;
pub const CONFIG_SCALE: u32 = 0x0F;
pub const CONFIG_ZERO_COMPARE: u32 = 0x200;
pub const CONFIG_ENALWAYS: u32 = 0x1000;
pub const CONFIG_ENONESHOT: u32 = 0x2000;
pub const CONFIG_CH0_PENDING: u32 = 0x1000_0000;

/// The counter is enabled (always or one-shot).
pub open spec fn pwm_en(cfg: u32) -> bool {
    cfg & (CONFIG_ENONESHOT | CONFIG_ENALWAYS) != 0
}

/// Whether the counter of a configuration is enabled.
pub fn has_pwm_en_bits(cfg: u32) -> (r: bool)
    ensures
        r == pwm_en(cfg),
{
    (cfg & (CONFIG_ENONESHOT | CONFIG_ENALWAYS)) != 0
}

/// The PWM registers.
pub struct SiFivePwm {
    /// Input clock frequency.
    pub freq_hz: u64,
    pub pwmcfg: u32,
    pub pwm_compare_regs: [u32; 4],
    /// Counter origin (while counting) or counter value (while stopped).
    pub tick_offset: u64,
    pub irq_state: [bool; 4],
}

/// Clock ticks elapsed in `ns` nanoseconds at `freq` Hz (truncated to
/// 64 bits).
pub open spec fn ticks_of(ns: u64, freq: u64) -> u64 {
    ((ns * freq) / 1_000_000_000) as u64
}

/// The 31-bit counter at time `now_ns`.
pub open spec fn pwm_count(s: SiFivePwm, now_ns: u64) -> u32 {
    if pwm_en(s.pwmcfg) {
        (ticks_of(now_ns, s.freq_hz).wrapping_sub(s.tick_offset) & 0x7FFF_FFFF) as u32
    } else {
        (s.tick_offset & 0x7FFF_FFFF) as u32
    }
}

/// The scaled 16-bit comparator input at time `now_ns`.
pub open spec fn pwm_scaled(s: SiFivePwm, now_ns: u64) -> u32 {
    (pwm_count(s, now_ns) >> (s.pwmcfg & CONFIG_SCALE)) & PWM_COMPARE_MASK
}

/// Per-channel comparison of the scaled counter with the comparators.
pub open spec fn pwm_compare(s: SiFivePwm, now_ns: u64) -> Seq<bool> {
    Seq::new(4, |i: int| pwm_scaled(s, now_ns) >= s.pwm_compare_regs@[i] & PWM_COMPARE_MASK)
}

impl SiFivePwm {
    /// Well-formed: the clock runs.
    pub open spec fn wf(&self) -> bool {
        self.freq_hz > 0
    }

    /// A PWM clocked at `freq_hz`, registers clear.
    pub fn new_with_freq(freq_hz: u64) -> (r: Self)
        requires
            freq_hz > 0,
        ensures
            r.wf(),
            r.freq_hz == freq_hz,
            r.pwmcfg == 0,
            r.tick_offset == 0,
            r.pwm_compare_regs@ == seq![0u32, 0u32, 0u32, 0u32],
            r.irq_state@ == seq![false, false, false, false],
    {
        let r = SiFivePwm {
            freq_hz,
            pwmcfg: 0,
            pwm_compare_regs: [0; 4],
            tick_offset: 0,
            irq_state: [false; 4],
        };
        proof {
            assert(r.pwm_compare_regs@ =~= seq![0u32, 0u32, 0u32, 0u32]);
            assert(r.irq_state@ =~= seq![false, false, false, false]);
        }
        r
    }

    /// A PWM clocked at 500 MHz.
    pub fn new() -> (r: Self)
        ensures
            r.wf(),
            r.freq_hz == 500_000_000,
            r.pwmcfg == 0,
            r.tick_offset == 0,
            r.pwm_compare_regs@ == seq![0u32, 0u32, 0u32, 0u32],
            r.irq_state@ == seq![false, false, false, false],
    {
        Self::new_with_freq(500_000_000)
    }

    /// Reset the configuration, comparators and interrupt state.
    pub fn reset(&mut self)
        ensures
            final(self).freq_hz == old(self).freq_hz,
            final(self).tick_offset == old(self).tick_offset,
            final(self).pwmcfg == 0,
            final(self).pwm_compare_regs@ == seq![0u32, 0u32, 0u32, 0u32],
            final(self).irq_state@ == seq![false, false, false, false],
    {
        self.pwmcfg = 0;
        self.pwm_compare_regs = [0; 4];
        self.irq_state = [false; 4];
        proof {
            assert(self.pwm_compare_regs@ =~= seq![0u32, 0u32, 0u32, 0u32]);
            assert(self.irq_state@ =~= seq![false, false, false, false]);
        }
    }

    /// Clock ticks in `ns` nanoseconds.
    pub fn ns_to_ticks(&self, ns: u64) -> (r: u64)
        ensures
            r == ticks_of(ns, self.freq_hz),
    {
        let a = ns as u128;
        let b = self.freq_hz as u128;
        assert(a * b <= 0xffff_ffff_ffff_ffff * 0xffff_ffff_ffff_ffffu128) by (nonlinear_arith)
            requires
                a <= 0xffff_ffff_ffff_ffffu128,
                b <= 0xffff_ffff_ffff_ffffu128,
        ;
        (a * b / 1_000_000_000u128) as u64
    }

    /// Nanoseconds of `ticks` clock ticks (truncated to 64 bits).
    pub fn ticks_to_ns(&self, ticks: u64) -> (r: u64)
        requires
            self.wf(),
        ensures
            r == ((ticks * 1_000_000_000) / self.freq_hz as int) as u64,
    {
        let a = ticks as u128;
        assert(a * 1_000_000_000u128 <= 0xffff_ffff_ffff_ffff * 1_000_000_000u128) by (nonlinear_arith)
            requires
                a <= 0xffff_ffff_ffff_ffffu128,
        ;
        (a * 1_000_000_000u128 / self.freq_hz as u128) as u64
    }

    /// The prescale shift.
    pub fn scale(&self) -> (r: u32)
        ensures
            r == self.pwmcfg & CONFIG_SCALE,
    {
        self.pwmcfg & CONFIG_SCALE
    }

    /// The 31-bit counter at `now_ns`.
    pub fn pwmcount(&self, now_ns: u64) -> (r: u32)
        ensures
            r == pwm_count(*self, now_ns),
    {
        let now_ticks = self.ns_to_ticks(now_ns);
        if has_pwm_en_bits(self.pwmcfg) {
            (now_ticks.wrapping_sub(self.tick_offset) & 0x7FFF_FFFF) as u32
        } else {
            (self.tick_offset & 0x7FFF_FFFF) as u32
        }
    }

    /// The scaled comparator input at `now_ns`.
    pub fn pwms(&self, now_ns: u64) -> (r: u32)
        ensures
            r == pwm_scaled(*self, now_ns),
    {
        let count = self.pwmcount(now_ns);
        let s = self.scale();
        let cfg = self.pwmcfg;
        assert(s < 32) by (bit_vector)
            requires
                s == cfg & 0x0Fu32,
        ;
        (count >> s) & PWM_COMPARE_MASK
    }

    /// Per-channel comparison results at `now_ns`.
    pub fn check_irqs(&self, now_ns: u64) -> (r: [bool; 4])
        ensures
            r@ == pwm_compare(*self, now_ns),
    {
        let pwms = self.pwms(now_ns);
        let r = [
            pwms >= (self.pwm_compare_regs[0] & PWM_COMPARE_MASK),
            pwms >= (self.pwm_compare_regs[1] & PWM_COMPARE_MASK),
            pwms >= (self.pwm_compare_regs[2] & PWM_COMPARE_MASK),
            pwms >= (self.pwm_compare_regs[3] & PWM_COMPARE_MASK),
        ];
        proof {
            assert(r@ =~= pwm_compare(*self, now_ns));
        }
        r
    }

    /// Advance to time `ns`: a wrapped one-shot counter stops, firing
    /// channels set their pending bits, a zero-compare match restarts
    /// the counter, and a counter that stopped keeps its value. Returns
    /// the per-channel interrupt levels.
    pub fn tick(&mut self, ns: u64) -> (r: [bool; 4])
        ensures
            ({
                let s = *old(self);
                let was = pwm_en(s.pwmcfg);
                let now = ticks_of(ns, s.freq_hz);
                let cfg1 = if was && now & 0x7FFF_FFFF < s.tick_offset & 0x7FFF_FFFF {
                    s.pwmcfg & !CONFIG_ENONESHOT
                } else {
                    s.pwmcfg
                };
                let s1 = SiFivePwm { pwmcfg: cfg1, ..s };
                let fire = pwm_compare(s1, ns);
                let cfg2 = cfg1 | (if fire[0] { 0x1000_0000u32 } else { 0 }) | (if fire[1] {
                    0x2000_0000u32
                } else {
                    0
                }) | (if fire[2] { 0x4000_0000u32 } else { 0 }) | (if fire[3] {
                    0x8000_0000u32
                } else {
                    0
                });
                let zero = cfg2 & CONFIG_ZERO_COMPARE != 0 && fire[0];
                let cfg3 = if zero {
                    cfg2 & !CONFIG_ENONESHOT
                } else {
                    cfg2
                };
                let off1 = if zero {
                    if was {
                        now
                    } else {
                        0
                    }
                } else {
                    s.tick_offset
                };
                let off2 = if was && !pwm_en(cfg3) {
                    now.wrapping_sub(off1) & 0x7FFF_FFFF
                } else {
                    off1
                };
                &&& r@ == fire
                &&& final(self).irq_state@ == fire
                &&& final(self).pwmcfg == cfg3
                &&& final(self).tick_offset == off2
                &&& final(self).freq_hz == s.freq_hz
                &&& final(self).pwm_compare_regs == s.pwm_compare_regs
            }),
    {
        let was_incrementing = has_pwm_en_bits(self.pwmcfg);
        let now = self.ns_to_ticks(ns);
        if was_incrementing && (now & 0x7FFF_FFFF) < (self.tick_offset & 0x7FFF_FFFF) {
            self.pwmcfg = self.pwmcfg & !CONFIG_ENONESHOT;
        }
        let fire = self.check_irqs(ns);
        let m0: u32 = if fire[0] {
            0x1000_0000
        } else {
            0
        };
        let m1: u32 = if fire[1] {
            0x2000_0000
        } else {
            0
        };
        let m2: u32 = if fire[2] {
            0x4000_0000
        } else {
            0
        };
        let m3: u32 = if fire[3] {
            0x8000_0000
        } else {
            0
        };
        self.pwmcfg = self.pwmcfg | m0 | m1 | m2 | m3;
        self.irq_state = fire;
        let ghost c = self.pwmcfg;
        if (self.pwmcfg & CONFIG_ZERO_COMPARE) != 0 && fire[0] {
            self.pwmcfg = self.pwmcfg & !CONFIG_ENONESHOT;
            if was_incrementing {
                self.tick_offset = now;
            } else {
                self.tick_offset = 0;
            }
        }
        if was_incrementing && !has_pwm_en_bits(self.pwmcfg) {
            self.tick_offset = now.wrapping_sub(self.tick_offset) & 0x7FFF_FFFF;
        }
        fire
    }

    /// The time of the counter in nanoseconds.
    pub fn current_time_ns(&self) -> (r: u64)
        requires
            self.wf(),
        ensures
            r == ((self.tick_offset * 1_000_000_000) / self.freq_hz as int) as u64,
    {
        self.ticks_to_ns(self.tick_offset)
    }

    /// The configuration register.
    pub fn config(&self) -> (r: u32)
        ensures
            r == self.pwmcfg,
    {
        self.pwmcfg
    }

    /// A guest read.
    pub fn read(&self, offset: u64) -> (r: u64)
        ensures
            r == (if offset == R_CONFIG {
                self.pwmcfg as u64
            } else if offset == R_COUNT {
                self.tick_offset & 0x7FFF_FFFF
            } else if offset == R_PWMS {
                ((self.tick_offset & 0x7FFF_FFFF) >> ((self.pwmcfg & CONFIG_SCALE) as u64)) & 0xFFFF
            } else if offset == R_PWM_COMPARE0 {
                (self.pwm_compare_regs@[0] & PWM_COMPARE_MASK) as u64
            } else if offset == R_PWM_COMPARE1 {
                (self.pwm_compare_regs@[1] & PWM_COMPARE_MASK) as u64
            } else if offset == R_PWM_COMPARE2 {
                (self.pwm_compare_regs@[2] & PWM_COMPARE_MASK) as u64
            } else if offset == R_PWM_COMPARE3 {
                (self.pwm_compare_regs@[3] & PWM_COMPARE_MASK) as u64
            } else {
                0
            }),
    {
        if offset == R_CONFIG {
            self.pwmcfg as u64
        } else if offset == R_COUNT {
            self.tick_offset & 0x7FFF_FFFF
        } else if offset == R_PWMS {
            let count = self.tick_offset & 0x7FFF_FFFF;
            let s32 = self.scale();
            let cfg = self.pwmcfg;
            assert(s32 < 16) by (bit_vector)
                requires
                    s32 == cfg & 0x0Fu32,
            ;
            let s = s32 as u64;
            (count >> s) & 0xFFFF
        } else if offset == R_PWM_COMPARE0 {
            (self.pwm_compare_regs[0] & PWM_COMPARE_MASK) as u64
        } else if offset == R_PWM_COMPARE1 {
            (self.pwm_compare_regs[1] & PWM_COMPARE_MASK) as u64
        } else if offset == R_PWM_COMPARE2 {
            (self.pwm_compare_regs[2] & PWM_COMPARE_MASK) as u64
        } else if offset == R_PWM_COMPARE3 {
            (self.pwm_compare_regs[3] & PWM_COMPARE_MASK) as u64
        } else {
            0
        }
    }

    /// A guest write. The channel comparisons are then re-evaluated at
    /// time 0; returns the new interrupt levels when they changed.
    pub fn write(&mut self, offset: u64, val: u64) -> (r: Option<[bool; 4]>)
        ensures
            ({
                let value = val as u32;
                let s = *old(self);
                let mid_ok = if offset == R_CONFIG {
                    &&& final(self).pwmcfg == value
                    &&& final(self).tick_offset == (if pwm_en(s.pwmcfg) != pwm_en(value) {
                        s.tick_offset & 0x7FFF_FFFF
                    } else {
                        s.tick_offset
                    })
                    &&& final(self).pwm_compare_regs == s.pwm_compare_regs
                } else if offset == R_COUNT {
                    &&& final(self).pwmcfg == s.pwmcfg
                    &&& final(self).tick_offset == (value as u64) & 0x7FFF_FFFF
                    &&& final(self).pwm_compare_regs == s.pwm_compare_regs
                } else if offset == R_PWMS {
                    &&& final(self).pwmcfg == s.pwmcfg
                    &&& final(self).tick_offset == ((((value as u64) & 0xFFFF) << ((s.pwmcfg
                        & CONFIG_SCALE) as u64)) & 0x7FFF_FFFF)
                    &&& final(self).pwm_compare_regs == s.pwm_compare_regs
                } else if offset == R_PWM_COMPARE0 || offset == R_PWM_COMPARE1 || offset == R_PWM_COMPARE2
                    || offset == R_PWM_COMPARE3 {
                    let ch = ((offset - R_PWM_COMPARE0) / 4) as int;
                    &&& final(self).pwmcfg == s.pwmcfg
                    &&& final(self).tick_offset == s.tick_offset
                    &&& final(self).pwm_compare_regs@ == s.pwm_compare_regs@.update(ch, value & PWM_COMPARE_MASK)
                } else {
                    &&& final(self).pwmcfg == s.pwmcfg
                    &&& final(self).tick_offset == s.tick_offset
                    &&& final(self).pwm_compare_regs == s.pwm_compare_regs
                };
                let levels = pwm_compare(*final(self), 0);
                let before = if offset == R_CONFIG {
                    Seq::new(
                        4,
                        |i: int|
                            if value & ((0x1000_0000u32 as int * pow2_4(i)) as u32) == 0 {
                                false
                            } else {
                                s.irq_state@[i]
                            },
                    )
                } else {
                    s.irq_state@
                };
                &&& mid_ok
                &&& final(self).freq_hz == s.freq_hz
                &&& final(self).irq_state@ == levels
                &&& (levels != before ==> (r matches Some(l) && l@ == levels))
                &&& (levels == before ==> r is None)
            }),
    {
        let value = val as u32;
        if offset == R_CONFIG {
            let old_has_en = has_pwm_en_bits(self.pwmcfg);
            let new_has_en = has_pwm_en_bits(value);
            if old_has_en != new_has_en {
                self.tick_offset = self.tick_offset & 0x7FFF_FFFF;
            }
            if (value & 0x1000_0000) == 0 {
                self.irq_state[0] = false;
            }
            if (value & 0x2000_0000) == 0 {
                self.irq_state[1] = false;
            }
            if (value & 0x4000_0000) == 0 {
                self.irq_state[2] = false;
            }
            if (value & 0x8000_0000) == 0 {
                self.irq_state[3] = false;
            }
            self.pwmcfg = value;
        } else if offset == R_COUNT {
            self.tick_offset = (value as u64) & 0x7FFF_FFFF;
        } else if offset == R_PWMS {
            let s32 = self.scale();
            let cfg = self.pwmcfg;
            assert(s32 < 16) by (bit_vector)
                requires
                    s32 == cfg & 0x0Fu32,
            ;
            let s = s32 as u64;
            self.tick_offset = (((value as u64) & 0xFFFF) << s) & 0x7FFF_FFFF;
        } else if offset == R_PWM_COMPARE0 {
            self.pwm_compare_regs[0] = value & PWM_COMPARE_MASK;
        } else if offset == R_PWM_COMPARE1 {
            self.pwm_compare_regs[1] = value & PWM_COMPARE_MASK;
        } else if offset == R_PWM_COMPARE2 {
            self.pwm_compare_regs[2] = value & PWM_COMPARE_MASK;
        } else if offset == R_PWM_COMPARE3 {
            self.pwm_compare_regs[3] = value & PWM_COMPARE_MASK;
        }
        let ghost before = self.irq_state@;
        let levels = self.check_irqs(0);
        let changed = levels[0] != self.irq_state[0] || levels[1] != self.irq_state[1]
            || levels[2] != self.irq_state[2] || levels[3] != self.irq_state[3];
        self.irq_state = levels;
        proof {
            if !changed {
                assert(levels@ =~= before);
            }
            if offset == R_CONFIG {
                let expect = Seq::new(
                    4,
                    |i: int|
                        if value & ((0x1000_0000u32 as int * pow2_4(i)) as u32) == 0 {
                            false
                        } else {
                            old(self).irq_state@[i]
                        },
                );
                assert(before =~= expect);
            }
        }
        if changed {
            Some(levels)
        } else {
            None
        }
    }
}

/// `2^i` for the four channel indices.
pub open spec fn pow2_4(i: int) -> int {
    if i == 0 {
        1
    } else if i == 1 {
        2
    } else if i == 2 {
        4
    } else {
        8
    }
}

} // verus!
