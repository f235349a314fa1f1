//! Loongson LS7A real-time clock register model: a time-of-year (TOY)
//! counter and a 32.768 kHz RTC counter, each with three match
//! registers.
use vstd::prelude::*;

verus! {

pub const SYS_TOYWRITE0: u64 = 0x24;
pub const SYS_TOYWRITE1: u64 = 0x28;
pub const SYS_TOYREAD0: u64 = 0x2C;
pub const SYS_TOYREAD1: u64 = 0x30;
pub const SYS_TOYMATCH0: u64 = 0x34;
pub const SYS_TOYMATCH1: u64 = 0x38;
pub const SYS_TOYMATCH2: u64 = 0x3C;
pub const SYS_RTCCTRL: u64 = 0x40;
pub const SYS_RTCWRTIE0: u64 = 0x64;
pub const SYS_RTCREAD0: u64 = 0x68;
pub const SYS_RTCMATCH0: u64 = 0x6C;
pub const SYS_RTCMATCH1: u64 = 0x70;
pub const SYS_RTCMATCH2: u64 = 0x74;
pub const LS7A_RTC_FREQ: u64 = 32768;
pub const RTC_CTRL_TOYEN: u32 = 0x800;
pub const RTC_CTRL_RTCEN: u32 = 0x2000;
pub const RTC_CTRL_EO: u32 = 0x100;

/// The LS7A RTC registers.
pub struct Ls7aRtc {
    /// TOY time in seconds.
    pub toy_offset: i64,
    /// RTC counter in 32.768 kHz ticks.
    pub rtc_offset: i64,
    /// Control register.
    pub cntrctl: u32,
    /// TOY match registers.
    pub toymatch: [u32; 3],
    /// RTC match registers.
    pub rtcmatch: [u32; 3],
    /// TOY year.
    pub toy_year: u32,
    /// Interrupt pending.
    pub irq_pending: bool,
}

/// The TOY counter runs: TOYEN and EO are set.
pub open spec fn toy_on(cntrctl: u32) -> bool {
    cntrctl & RTC_CTRL_TOYEN != 0 && cntrctl & RTC_CTRL_EO != 0
}

/// The RTC counter runs: RTCEN and EO are set.
pub open spec fn rtc_on(cntrctl: u32) -> bool {
    cntrctl & RTC_CTRL_RTCEN != 0 && cntrctl & RTC_CTRL_EO != 0
}

/// The TOYREAD0 value of `toy_offset` seconds: seconds, minutes, hours,
/// day of month (31-day months) and month in their bit fields.
pub open spec fn toy_encoding(toy_offset: i64) -> u32 {
    let total = toy_offset as u64;
    let sec = total % 60;
    let mins = (total / 60) % 0x1_0000_0000;
    let min = mins % 60;
    let hours = mins / 60;
    let hour = hours % 24;
    let days = hours / 24;
    let day = days % 31 + 1;
    let mon = (days / 31) % 12 + 1;
    (sec * 0x10 + min * 0x400 + hour * 0x1_0000 + day * 0x20_0000 + mon * 0x400_0000) as u32
}

/// The TOY time (seconds) set by a TOYWRITE0 of `val` in year `year`.
pub open spec fn toy_decoding(val: u32, year: u32) -> i64 {
    let sec = (val / 0x10) % 64;
    let min = (val / 0x400) % 64;
    let hour = (val / 0x1_0000) % 32;
    let day = (val / 0x20_0000) % 32;
    let mon = (val / 0x400_0000) % 64;
    (sec + min * 60 + hour * 3600 + (day - 1) * 86400 + (mon - 1) * 31 * 86400 + year * 365
        * 86400) as i64
}

/// The match registers after a check: entries that are set and match
/// are cleared.
pub open spec fn cleared(m: Seq<u32>, hit: spec_fn(u32) -> bool) -> Seq<u32> {
    Seq::new(m.len(), |i: int| if m[i] != 0 && hit(m[i]) { 0u32 } else { m[i] })
}

/// Some set match register matches.
pub open spec fn any_hit(m: Seq<u32>, hit: spec_fn(u32) -> bool) -> bool {
    exists|i: int| 0 <= i < m.len() && m[i] != 0 && #[trigger] hit(m[i])
}

/// A TOY match register matches the encoded time in its low 30 bits.
pub open spec fn toy_hit(toy_offset: i64) -> spec_fn(u32) -> bool {
    |m: u32| toy_encoding(toy_offset) % 0x4000_0000 == m % 0x4000_0000
}

/// An RTC match register has been reached by the counter.
pub open spec fn rtc_hit(rtc_offset: i64) -> spec_fn(u32) -> bool {
    |m: u32| rtc_offset as u32 >= m
}

impl Ls7aRtc {
    /// Registers at power-on.
    pub fn new() -> (r: Self)
        ensures
            r.toy_offset == 0 && r.rtc_offset == 0 && r.cntrctl == 0 && r.toymatch@ == seq![0u32, 0u32, 0u32]
                && r.rtcmatch@ == seq![0u32, 0u32, 0u32] && r.toy_year == 0 && !r.irq_pending,
    {
        let r = Ls7aRtc {
            toy_offset: 0,
            rtc_offset: 0,
            cntrctl: 0,
            toymatch: [0; 3],
            rtcmatch: [0; 3],
            toy_year: 0,
            irq_pending: false,
        };
        proof {
            assert(r.toymatch@ =~= seq![0u32, 0u32, 0u32]);
            assert(r.rtcmatch@ =~= seq![0u32, 0u32, 0u32]);
        }
        r
    }

    /// Reset: clear the match registers, the control register and the
    /// pending interrupt; the counters keep running.
    pub fn reset(&mut self)
        ensures
            final(self).toymatch@ == seq![0u32, 0u32, 0u32],
            final(self).rtcmatch@ == seq![0u32, 0u32, 0u32],
            final(self).cntrctl == 0,
            !final(self).irq_pending,
            final(self).toy_offset == old(self).toy_offset,
            final(self).rtc_offset == old(self).rtc_offset,
            final(self).toy_year == old(self).toy_year,
    {
        self.toymatch = [0; 3];
        self.rtcmatch = [0; 3];
        self.cntrctl = 0;
        self.irq_pending = false;
        proof {
            assert(self.toymatch@ =~= seq![0u32, 0u32, 0u32]);
            assert(self.rtcmatch@ =~= seq![0u32, 0u32, 0u32]);
        }
    }

    /// Whether the TOY counter runs.
    pub fn toy_enabled(&self) -> (r: bool)
        ensures
            r == toy_on(self.cntrctl),
    {
        (self.cntrctl & RTC_CTRL_TOYEN) != 0 && (self.cntrctl & RTC_CTRL_EO) != 0
    }

    /// Whether the RTC counter runs.
    pub fn rtc_enabled(&self) -> (r: bool)
        ensures
            r == rtc_on(self.cntrctl),
    {
        (self.cntrctl & RTC_CTRL_RTCEN) != 0 && (self.cntrctl & RTC_CTRL_EO) != 0
    }

    /// The RTC counter, truncated to 32 bits.
    pub fn rtc_ticks(&self) -> (r: u32)
        ensures
            r == self.rtc_offset as u32,
    {
        self.rtc_offset as u32
    }

    /// Encode the TOY time for TOYREAD0.
    pub fn encode_toy(&self) -> (r: u32)
        ensures
            r == toy_encoding(self.toy_offset),
    {
        let total_secs = self.toy_offset as u64;
        let sec = (total_secs % 60) as u32;
        let mins = ((total_secs / 60) % 0x1_0000_0000) as u32;
        let min = mins % 60;
        let hours = mins / 60;
        let hour = hours % 24;
        let days_total = hours / 24;
        let day = (days_total % 31) + 1;
        let mon = ((days_total / 31) % 12) + 1;
        sec * 0x10 + min * 0x400 + hour * 0x1_0000 + day * 0x20_0000 + mon * 0x400_0000
    }

    /// Set the TOY time from a TOYWRITE0 value.
    pub fn decode_toy_write0(&mut self, val: u32)
        ensures
            final(self).toy_offset == toy_decoding(val, old(self).toy_year),
            final(self).rtc_offset == old(self).rtc_offset,
            final(self).cntrctl == old(self).cntrctl,
            final(self).toymatch == old(self).toymatch,
            final(self).rtcmatch == old(self).rtcmatch,
            final(self).toy_year == old(self).toy_year,
            final(self).irq_pending == old(self).irq_pending,
    {
        let sec = (val / 0x10) % 64;
        let min = (val / 0x400) % 64;
        let hour = (val / 0x1_0000) % 32;
        let day = (val / 0x20_0000) % 32;
        let mon = (val / 0x400_0000) % 64;
        let total = sec as i64 + min as i64 * 60 + hour as i64 * 3600 + (day as i64 - 1) * 86400
            + (mon as i64 - 1) * 31 * 86400 + self.toy_year as i64 * 365 * 86400;
        self.toy_offset = total;
    }

    /// Set the TOY year from a TOYWRITE1 value.
    pub fn decode_toy_write1(&mut self, year: u32)
        ensures
            final(self).toy_year == year,
            final(self).toy_offset == old(self).toy_offset,
            final(self).rtc_offset == old(self).rtc_offset,
            final(self).cntrctl == old(self).cntrctl,
            final(self).toymatch == old(self).toymatch,
            final(self).rtcmatch == old(self).rtcmatch,
            final(self).irq_pending == old(self).irq_pending,
    {
        self.toy_year = year;
    }

    /// When the TOY counter runs, fire and clear every TOY match register
    /// that matches the current time.
    pub fn check_toy_matches(&mut self)
        ensures
            final(self).toy_offset == old(self).toy_offset,
            final(self).rtc_offset == old(self).rtc_offset,
            final(self).cntrctl == old(self).cntrctl,
            final(self).rtcmatch == old(self).rtcmatch,
            final(self).toy_year == old(self).toy_year,
            !toy_on(old(self).cntrctl) ==> final(self).toymatch == old(self).toymatch
                && final(self).irq_pending == old(self).irq_pending,
            toy_on(old(self).cntrctl) ==> final(self).toymatch@ == cleared(
                old(self).toymatch@,
                toy_hit(old(self).toy_offset),
            ) && final(self).irq_pending == (old(self).irq_pending || any_hit(
                old(self).toymatch@,
                toy_hit(old(self).toy_offset),
            )),
    {
        if !self.toy_enabled() {
            return;
        }
        let toy_val = self.encode_toy();
        let ghost hit = toy_hit(self.toy_offset);
        let ghost m0 = self.toymatch@;
        let mut fired = false;
        let mut i: usize = 0;
        while i < 3
            invariant
                i <= 3,
                m0.len() == 3,
                hit == toy_hit(self.toy_offset),
                toy_val == toy_encoding(self.toy_offset),
                self.toymatch@.len() == 3,
                forall|j: int| 0 <= j < i ==> self.toymatch@[j] == cleared(m0, hit)[j],
                forall|j: int| i <= j < 3 ==> self.toymatch@[j] == m0[j],
                fired == exists|j: int| 0 <= j < i && m0[j] != 0 && #[trigger] hit(m0[j]),
                self.toy_offset == old(self).toy_offset,
                self.rtc_offset == old(self).rtc_offset,
                self.cntrctl == old(self).cntrctl,
                self.rtcmatch == old(self).rtcmatch,
                self.toy_year == old(self).toy_year,
                self.irq_pending == old(self).irq_pending,
                m0 == old(self).toymatch@,
            decreases 3 - i,
        {
            let m = self.toymatch[i];
            if m != 0 && toy_val % 0x4000_0000 == m % 0x4000_0000 {
                fired = true;
                self.toymatch[i] = 0;
            }
            proof {
                assert(hit(m0[i as int]) == (toy_encoding(self.toy_offset) % 0x4000_0000 == m0[i as int] % 0x4000_0000));
            }
            i = i + 1;
        }
        if fired {
            self.irq_pending = true;
        }
        proof {
            assert(self.toymatch@ =~= cleared(m0, hit));
        }
    }

    /// When the RTC counter runs, fire and clear every RTC match register
    /// the counter has reached.
    pub fn check_rtc_matches(&mut self)
        ensures
            final(self).toy_offset == old(self).toy_offset,
            final(self).rtc_offset == old(self).rtc_offset,
            final(self).cntrctl == old(self).cntrctl,
            final(self).toymatch == old(self).toymatch,
            final(self).toy_year == old(self).toy_year,
            !rtc_on(old(self).cntrctl) ==> final(self).rtcmatch == old(self).rtcmatch
                && final(self).irq_pending == old(self).irq_pending,
            rtc_on(old(self).cntrctl) ==> final(self).rtcmatch@ == cleared(
                old(self).rtcmatch@,
                rtc_hit(old(self).rtc_offset),
            ) && final(self).irq_pending == (old(self).irq_pending || any_hit(
                old(self).rtcmatch@,
                rtc_hit(old(self).rtc_offset),
            )),
    {
        if !self.rtc_enabled() {
            return;
        }
        let ticks = self.rtc_ticks();
        let ghost hit = rtc_hit(self.rtc_offset);
        let ghost m0 = self.rtcmatch@;
        let mut fired = false;
        let mut i: usize = 0;
        while i < 3
            invariant
                i <= 3,
                m0.len() == 3,
                hit == rtc_hit(self.rtc_offset),
                ticks == self.rtc_offset as u32,
                self.rtcmatch@.len() == 3,
                forall|j: int| 0 <= j < i ==> self.rtcmatch@[j] == cleared(m0, hit)[j],
                forall|j: int| i <= j < 3 ==> self.rtcmatch@[j] == m0[j],
                fired == exists|j: int| 0 <= j < i && m0[j] != 0 && #[trigger] hit(m0[j]),
                self.toy_offset == old(self).toy_offset,
                self.rtc_offset == old(self).rtc_offset,
                self.cntrctl == old(self).cntrctl,
                self.toymatch == old(self).toymatch,
                self.toy_year == old(self).toy_year,
                self.irq_pending == old(self).irq_pending,
                m0 == old(self).rtcmatch@,
            decreases 3 - i,
        {
            let m = self.rtcmatch[i];
            if m != 0 && ticks >= m {
                fired = true;
                self.rtcmatch[i] = 0;
            }
            proof {
                assert(hit(m0[i as int]) == (self.rtc_offset as u32 >= m0[i as int]));
            }
            i = i + 1;
        }
        if fired {
            self.irq_pending = true;
        }
        proof {
            assert(self.rtcmatch@ =~= cleared(m0, hit));
        }
    }

    /// Advance both counters by `seconds` (wrapping), check the match
    /// registers, and return whether the interrupt line must be raised.
    pub fn tick(&mut self, seconds: u32) -> (r: bool)
        ensures
            ({
                let toy = (old(self).toy_offset as u64).wrapping_add(seconds as u64) as i64;
                let rtc = (old(self).rtc_offset as u64).wrapping_add((seconds * LS7A_RTC_FREQ) as u64) as i64;
                let toy_fire = toy_on(old(self).cntrctl) && any_hit(old(self).toymatch@, toy_hit(toy));
                let rtc_fire = rtc_on(old(self).cntrctl) && any_hit(old(self).rtcmatch@, rtc_hit(rtc));
                &&& final(self).toy_offset == toy
                &&& final(self).rtc_offset == rtc
                &&& final(self).cntrctl == old(self).cntrctl
                &&& final(self).toy_year == old(self).toy_year
                &&& final(self).toymatch@ == (if toy_on(old(self).cntrctl) {
                    cleared(old(self).toymatch@, toy_hit(toy))
                } else {
                    old(self).toymatch@
                })
                &&& final(self).rtcmatch@ == (if rtc_on(old(self).cntrctl) {
                    cleared(old(self).rtcmatch@, rtc_hit(rtc))
                } else {
                    old(self).rtcmatch@
                })
                &&& final(self).irq_pending == (old(self).irq_pending || toy_fire || rtc_fire)
                &&& r == final(self).irq_pending
            }),
    {
        let secs = seconds as u64;
        self.toy_offset = (self.toy_offset as u64).wrapping_add(secs) as i64;
        self.rtc_offset = (self.rtc_offset as u64).wrapping_add(secs * LS7A_RTC_FREQ) as i64;
        self.check_toy_matches();
        self.check_rtc_matches();
        self.irq_pending
    }

    /// Set the TOY time in seconds.
    pub fn set_toy_offset(&mut self, offset: i64)
        ensures
            *final(self) == (Ls7aRtc { toy_offset: offset, ..*old(self) }),
    {
        self.toy_offset = offset;
    }

    /// Set the RTC counter in ticks.
    pub fn set_rtc_offset(&mut self, offset: i64)
        ensures
            *final(self) == (Ls7aRtc { rtc_offset: offset, ..*old(self) }),
    {
        self.rtc_offset = offset;
    }

    /// A 32-bit guest read; other widths read 0. The counters read 0
    /// while stopped.
    pub fn read(&self, offset: u64, size: u32) -> (r: u64)
        ensures
            r == (if size != 4 {
                0
            } else if offset == SYS_TOYREAD0 && toy_on(self.cntrctl) {
                toy_encoding(self.toy_offset) as u64
            } else if offset == SYS_TOYREAD1 && toy_on(self.cntrctl) {
                self.toy_year as u64
            } else if offset == SYS_TOYMATCH0 {
                self.toymatch@[0] as u64
            } else if offset == SYS_TOYMATCH1 {
                self.toymatch@[1] as u64
            } else if offset == SYS_TOYMATCH2 {
                self.toymatch@[2] as u64
            } else if offset == SYS_RTCCTRL {
                self.cntrctl as u64
            } else if offset == SYS_RTCREAD0 && rtc_on(self.cntrctl) {
                (self.rtc_offset as u32) as u64
            } else if offset == SYS_RTCMATCH0 {
                self.rtcmatch@[0] as u64
            } else if offset == SYS_RTCMATCH1 {
                self.rtcmatch@[1] as u64
            } else if offset == SYS_RTCMATCH2 {
                self.rtcmatch@[2] as u64
            } else {
                0
            }),
    {
        if size != 4 {
            return 0;
        }
        if offset == SYS_TOYREAD0 && self.toy_enabled() {
            self.encode_toy() as u64
        } else if offset == SYS_TOYREAD1 && self.toy_enabled() {
            self.toy_year as u64
        } else if offset == SYS_TOYMATCH0 {
            self.toymatch[0] as u64
        } else if offset == SYS_TOYMATCH1 {
            self.toymatch[1] as u64
        } else if offset == SYS_TOYMATCH2 {
            self.toymatch[2] as u64
        } else if offset == SYS_RTCCTRL {
            self.cntrctl as u64
        } else if offset == SYS_RTCREAD0 && self.rtc_enabled() {
            self.rtc_ticks() as u64
        } else if offset == SYS_RTCMATCH0 {
            self.rtcmatch[0] as u64
        } else if offset == SYS_RTCMATCH1 {
            self.rtcmatch[1] as u64
        } else if offset == SYS_RTCMATCH2 {
            self.rtcmatch[2] as u64
        } else {
            0
        }
    }

    /// A 32-bit guest write; other widths are ignored. TOY registers are
    /// writable only while the TOY counter runs, RTC registers only while
    /// the RTC counter runs; the control register is always writable.
    pub fn write(&mut self, offset: u64, size: u32, val: u64)
        ensures
            ({
                let v = val as u32;
                let s = *old(self);
                let toy = toy_on(s.cntrctl);
                let rtc = rtc_on(s.cntrctl);
                if size != 4 {
                    *final(self) == s
                } else if offset == SYS_TOYWRITE0 && toy {
                    *final(self) == (Ls7aRtc { toy_offset: toy_decoding(v, s.toy_year), ..s })
                } else if offset == SYS_TOYWRITE1 && toy {
                    *final(self) == (Ls7aRtc { toy_year: v, ..s })
                } else if offset == SYS_TOYMATCH0 && toy {
                    final(self).toymatch@ == s.toymatch@.update(0, v) && *final(self) == (Ls7aRtc {
                        toymatch: final(self).toymatch,
                        ..s
                    })
                } else if offset == SYS_TOYMATCH1 && toy {
                    final(self).toymatch@ == s.toymatch@.update(1, v) && *final(self) == (Ls7aRtc {
                        toymatch: final(self).toymatch,
                        ..s
                    })
                } else if offset == SYS_TOYMATCH2 && toy {
                    final(self).toymatch@ == s.toymatch@.update(2, v) && *final(self) == (Ls7aRtc {
                        toymatch: final(self).toymatch,
                        ..s
                    })
                } else if offset == SYS_RTCCTRL {
                    *final(self) == (Ls7aRtc { cntrctl: v, ..s })
                } else if offset == SYS_RTCWRTIE0 && rtc {
                    *final(self) == (Ls7aRtc {
                        rtc_offset: (v as int - (s.rtc_offset as u32) as int) as i64,
                        ..s
                    })
                } else if offset == SYS_RTCMATCH0 && rtc {
                    final(self).rtcmatch@ == s.rtcmatch@.update(0, v) && *final(self) == (Ls7aRtc {
                        rtcmatch: final(self).rtcmatch,
                        ..s
                    })
                } else if offset == SYS_RTCMATCH1 && rtc {
                    final(self).rtcmatch@ == s.rtcmatch@.update(1, v) && *final(self) == (Ls7aRtc {
                        rtcmatch: final(self).rtcmatch,
                        ..s
                    })
                } else if offset == SYS_RTCMATCH2 && rtc {
                    final(self).rtcmatch@ == s.rtcmatch@.update(2, v) && *final(self) == (Ls7aRtc {
                        rtcmatch: final(self).rtcmatch,
                        ..s
                    })
                } else {
                    *final(self) == s
                }
            }),
    {
        if size != 4 {
            return;
        }
        let value = val as u32;
        if offset == SYS_TOYWRITE0 {
            if self.toy_enabled() {
                self.decode_toy_write0(value);
            }
        } else if offset == SYS_TOYWRITE1 {
            if self.toy_enabled() {
                self.decode_toy_write1(value);
            }
        } else if offset == SYS_TOYMATCH0 {
            if self.toy_enabled() {
                self.toymatch[0] = value;
            }
        } else if offset == SYS_TOYMATCH1 {
            if self.toy_enabled() {
                self.toymatch[1] = value;
            }
        } else if offset == SYS_TOYMATCH2 {
            if self.toy_enabled() {
                self.toymatch[2] = value;
            }
        } else if offset == SYS_RTCCTRL {
            self.cntrctl = value;
        } else if offset == SYS_RTCWRTIE0 {
            if self.rtc_enabled() {
                self.rtc_offset = value as i64 - self.rtc_ticks() as i64;
            }
        } else if offset == SYS_RTCMATCH0 {
            if self.rtc_enabled() {
                self.rtcmatch[0] = value;
            }
        } else if offset == SYS_RTCMATCH1 {
            if self.rtc_enabled() {
                self.rtcmatch[1] = value;
            }
        } else if offset == SYS_RTCMATCH2 {
            if self.rtc_enabled() {
                self.rtcmatch[2] = value;
            }
        }
    }
}

} // verus!
