//! ARM SSE system counter and system timer register models.
//!
//! The timer reads the counter's value; it is passed in by the caller.
//! Where the devices would notify listeners or drive an interrupt line,
//! the methods return what the owner must do.
use vstd::prelude::*;

verus! {

pub const A_CNTCR: u64 = 0x00;
pub const A_CNTSR: u64 = 0x04;
pub const A_CNTCV_LO: u64 = 0x08;
pub const A_CNTCV_HI: u64 = 0x0C;
pub const A_CNTSCR: u64 = 0x10;
pub const A_CNTID: u64 = 0x1C;
pub const A_CNTSCR0: u64 = 0xD0;
pub const A_CNTSCR1: u64 = 0xD4;
pub const A_STATUS_CNTCV_LO: u64 = 0x00;
pub const A_STATUS_CNTCV_HI: u64 = 0x04;
pub const A_PID4: u64 = 0xFD0;
pub const A_CID3: u64 = 0xFFC;
pub const CNTCR_EN: u32 = 0x01;
pub const CNTCR_SCEN: u32 = 0x04;
pub const CNTCR_VALID_MASK: u32 = 0x1F;

/// Identification byte `i` of a frame whose part number byte is `part`.
pub open spec fn id_byte_of(part: u8, i: int) -> u64 {
    if i == 0 {
        0x04
    } else if i == 4 {
        part as u64
    } else if i == 5 {
        0xB0
    } else if i == 6 {
        0x0B
    } else if i == 8 {
        0x0D
    } else if i == 9 {
        0xF0
    } else if i == 10 {
        0x05
    } else if i == 11 {
        0xB1
    } else {
        0
    }
}

/// The identification register at `offset` (0xFD0..=0xFFC).
pub fn read_id(part: u8, offset: u64) -> (r: u64)
    requires
        A_PID4 <= offset,
    ensures
        r == id_byte_of(part, ((offset - A_PID4) / 4) as int),
{
    let i = (offset - A_PID4) / 4;
    if i == 0 {
        0x04
    } else if i == 4 {
        part as u64
    } else if i == 5 {
        0xB0
    } else if i == 6 {
        0x0B
    } else if i == 8 {
        0x0D
    } else if i == 9 {
        0xF0
    } else if i == 10 {
        0x05
    } else if i == 11 {
        0xB1
    } else {
        0
    }
}

/// The system counter.
pub struct SseCounter {
    pub cntcr: u32,
    pub cntscr0: u32,
    pub ticks_then: u64,
    pub ns_then: u64,
    pub freq_hz: u64,
}

/// The counter after `ns` nanoseconds: it advances only while enabled,
/// by the elapsed ticks, scaled by CNTSCR0 / 2^24 when scaling is on.
pub open spec fn counter_after(s: SseCounter, ns: u64) -> SseCounter {
    if s.cntcr & CNTCR_EN == 0 {
        s
    } else {
        let freq = if s.freq_hz > 0 {
            s.freq_hz as int
        } else {
            1
        };
        let ticks = ((ns * freq) / 1_000_000_000) as u64;
        let inc = if s.cntcr & CNTCR_SCEN != 0 && s.cntscr0 > 0 {
            ((ticks * s.cntscr0) / 0x100_0000) as u64
        } else {
            ticks
        };
        SseCounter { ticks_then: s.ticks_then.wrapping_add(inc), ns_then: s.ns_then.wrapping_add(ns), ..s }
    }
}

impl SseCounter {
    /// A counter at `freq_hz`, disabled, scale 1.0.
    pub fn new_with_freq(freq_hz: u64) -> (r: Self)
        ensures
            r == (SseCounter { cntcr: 0, cntscr0: 0x0100_0000, ticks_then: 0, ns_then: 0, freq_hz }),
    {
        SseCounter { cntcr: 0, cntscr0: 0x0100_0000, ticks_then: 0, ns_then: 0, freq_hz }
    }

    /// A 1 MHz counter.
    pub fn new() -> (r: Self)
        ensures
            r == (SseCounter { cntcr: 0, cntscr0: 0x0100_0000, ticks_then: 0, ns_then: 0, freq_hz: 1_000_000 }),
    {
        Self::new_with_freq(1_000_000)
    }

    /// Reset the control, scale and count.
    pub fn reset_runtime(&mut self)
        ensures
            *final(self) == (SseCounter {
                cntcr: 0,
                cntscr0: 0x0100_0000,
                ticks_then: 0,
                ns_then: 0,
                ..*old(self)
            }),
    {
        self.cntcr = 0;
        self.cntscr0 = 0x0100_0000;
        self.ticks_then = 0;
        self.ns_then = 0;
    }

    /// Whether the counter runs.
    pub fn enabled(&self) -> (r: bool)
        ensures
            r == (self.cntcr & CNTCR_EN != 0),
    {
        (self.cntcr & CNTCR_EN) != 0
    }

    /// The counter value.
    pub fn counter_value(&self) -> (r: u64)
        ensures
            r == self.ticks_then,
    {
        self.ticks_then
    }

    /// Advance by `ns` nanoseconds.
    pub fn tick(&mut self, ns: u64)
        ensures
            *final(self) == counter_after(*old(self), ns),
    {
        if !self.enabled() {
            return;
        }
        let freq = if self.freq_hz > 0 {
            self.freq_hz
        } else {
            1
        };
        let a = ns as u128;
        let b = freq as u128;
        assert(a * b <= 0xffff_ffff_ffff_ffff * 0xffff_ffff_ffff_ffffu128) by (nonlinear_arith)
            requires
                a <= 0xffff_ffff_ffff_ffffu128,
                b <= 0xffff_ffff_ffff_ffffu128,
        ;
        let ticks = (a * b / 1_000_000_000u128) as u64;
        if (self.cntcr & CNTCR_SCEN) != 0 && self.cntscr0 > 0 {
            let t = ticks as u128;
            let c = self.cntscr0 as u128;
            assert(t * c <= 0xffff_ffff_ffff_ffff * 0xffff_ffffu128) by (nonlinear_arith)
                requires
                    t <= 0xffff_ffff_ffff_ffffu128,
                    c <= 0xffff_ffffu128,
            ;
            let scaled = (t * c / 0x0100_0000u128) as u64;
            self.ticks_then = self.ticks_then.wrapping_add(scaled);
        } else {
            self.ticks_then = self.ticks_then.wrapping_add(ticks);
        }
        self.ns_then = self.ns_then.wrapping_add(ns);
    }

    /// Set the counter value.
    pub fn set_counter(&mut self, val: u64)
        ensures
            *final(self) == (SseCounter { ticks_then: val, ..*old(self) }),
    {
        self.ticks_then = val;
    }

    /// A read of the control frame.
    pub fn control_read(&self, offset: u64) -> (r: u64)
        ensures
            r == (if offset == A_CNTCR {
                self.cntcr as u64
            } else if offset == A_CNTCV_LO {
                self.ticks_then % 0x1_0000_0000
            } else if offset == A_CNTCV_HI {
                self.ticks_then / 0x1_0000_0000
            } else if offset == A_CNTID {
                0x1_0001
            } else if offset == A_CNTSCR || offset == A_CNTSCR0 {
                self.cntscr0 as u64
            } else if A_PID4 <= offset <= A_CID3 {
                id_byte_of(0xBA, ((offset - A_PID4) / 4) as int)
            } else {
                0
            }),
    {
        if offset == A_CNTCR {
            self.cntcr as u64
        } else if offset == A_CNTCV_LO {
            self.ticks_then % 0x1_0000_0000
        } else if offset == A_CNTCV_HI {
            self.ticks_then / 0x1_0000_0000
        } else if offset == A_CNTID {
            0x1_0001
        } else if offset == A_CNTSCR || offset == A_CNTSCR0 {
            self.cntscr0 as u64
        } else if A_PID4 <= offset && offset <= A_CID3 {
            read_id(0xBA, offset)
        } else {
            0
        }
    }

    /// A write of the control frame. Listeners are to be notified after
    /// every write.
    pub fn control_write(&mut self, offset: u64, val: u64)
        ensures
            *final(self) == (if offset == A_CNTCR {
                SseCounter { cntcr: (val as u32) & CNTCR_VALID_MASK, ..*old(self) }
            } else if offset == A_CNTCV_LO {
                SseCounter {
                    ticks_then: ((old(self).ticks_then / 0x1_0000_0000) * 0x1_0000_0000 + val
                        % 0x1_0000_0000) as u64,
                    ..*old(self)
                }
            } else if offset == A_CNTCV_HI {
                SseCounter { ticks_then: ((val % 0x1_0000_0000) * 0x1_0000_0000) as u64, ..*old(self) }
            } else if offset == A_CNTSCR || offset == A_CNTSCR0 {
                SseCounter { cntscr0: val as u32, ..*old(self) }
            } else {
                *old(self)
            }),
    {
        let value = val as u32;
        if offset == A_CNTCR {
            self.cntcr = value & CNTCR_VALID_MASK;
        } else if offset == A_CNTCV_LO {
            let cv = self.counter_value();
            self.set_counter((cv / 0x1_0000_0000) * 0x1_0000_0000 + val % 0x1_0000_0000);
        } else if offset == A_CNTCV_HI {
            self.set_counter((val % 0x1_0000_0000) * 0x1_0000_0000);
        } else if offset == A_CNTSCR || offset == A_CNTSCR0 {
            self.cntscr0 = value;
        }
    }

    /// A read of the status frame.
    pub fn status_read(&self, offset: u64) -> (r: u64)
        ensures
            r == (if offset == A_STATUS_CNTCV_LO {
                self.ticks_then % 0x1_0000_0000
            } else if offset == A_STATUS_CNTCV_HI {
                self.ticks_then / 0x1_0000_0000
            } else if A_PID4 <= offset <= A_CID3 {
                id_byte_of(0xBB, ((offset - A_PID4) / 4) as int)
            } else {
                0
            }),
    {
        if offset == A_STATUS_CNTCV_LO {
            self.ticks_then % 0x1_0000_0000
        } else if offset == A_STATUS_CNTCV_HI {
            self.ticks_then / 0x1_0000_0000
        } else if A_PID4 <= offset && offset <= A_CID3 {
            read_id(0xBB, offset)
        } else {
            0
        }
    }
}

pub const A_CNTPCT_LO: u64 = 0x00;
pub const A_CNTPCT_HI: u64 = 0x04;
pub const A_CNTFRQ: u64 = 0x10;
pub const A_CNTP_CVAL_LO: u64 = 0x20;
pub const A_CNTP_CVAL_HI: u64 = 0x24;
pub const A_CNTP_TVAL: u64 = 0x28;
pub const A_CNTP_CTL: u64 = 0x2C;
pub const A_CNTP_AIVAL_LO: u64 = 0x40;
pub const A_CNTP_AIVAL_HI: u64 = 0x44;
pub const A_CNTP_AIVAL_RELOAD: u64 = 0x48;
pub const A_CNTP_AIVAL_CTL: u64 = 0x4C;
pub const A_CNTP_CFG: u64 = 0x50;
pub const CTL_ENABLE: u32 = 0x1;
pub const CTL_IMASK: u32 = 0x2;
pub const CTL_ISTATUS: u32 = 0x4;
pub const AIVAL_CTL_EN: u32 = 0x1;
pub const AIVAL_CTL_CLR: u32 = 0x2;

/// The system timer.
pub struct SseTimer {
    pub cntp_ctl: u32,
    pub cntp_cval: u64,
    pub cntp_aival: u64,
    pub cntp_aival_ctl: u32,
    pub cntp_aival_reload: u32,
    pub cntfrq: u32,
}

/// The timer condition: enabled and either an auto-increment event is
/// latched or the counter reached the compare value.
pub open spec fn timer_cond(s: SseTimer, counter: u64) -> bool {
    s.cntp_ctl & CTL_ENABLE != 0 && (if s.cntp_aival_ctl & AIVAL_CTL_EN != 0 {
        s.cntp_aival_ctl & AIVAL_CTL_CLR != 0
    } else {
        counter >= s.cntp_cval
    })
}

/// The timer after evaluating its condition at `counter`.
pub open spec fn timer_ticked(s: SseTimer, counter: u64) -> SseTimer {
    let s1 = if s.cntp_aival_ctl & AIVAL_CTL_EN != 0 && s.cntp_ctl & CTL_ENABLE != 0 && counter
        >= s.cntp_aival {
        SseTimer {
            cntp_aival_ctl: s.cntp_aival_ctl | AIVAL_CTL_CLR,
            cntp_aival: (counter + s.cntp_aival_reload) as u64,
            ..s
        }
    } else {
        s
    };
    SseTimer {
        cntp_ctl: if timer_cond(s1, counter) {
            s1.cntp_ctl | CTL_ISTATUS
        } else {
            s1.cntp_ctl & !CTL_ISTATUS
        },
        ..s1
    }
}

/// The interrupt level: the condition holds and is not masked.
pub open spec fn timer_level(s: SseTimer, counter: u64) -> bool {
    timer_cond(s, counter) && s.cntp_ctl & CTL_IMASK == 0
}

/// The counter leaves room for the largest reload value.
pub open spec fn counter_room(counter: u64) -> bool {
    counter <= u64::MAX - 0xFFFF_FFFF
}

impl SseTimer {
    /// A timer with every register clear.
    pub fn new() -> (r: Self)
        ensures
            r == (SseTimer {
                cntp_ctl: 0,
                cntp_cval: 0,
                cntp_aival: 0,
                cntp_aival_ctl: 0,
                cntp_aival_reload: 0,
                cntfrq: 0,
            }),
    {
        SseTimer {
            cntp_ctl: 0,
            cntp_cval: 0,
            cntp_aival: 0,
            cntp_aival_ctl: 0,
            cntp_aival_reload: 0,
            cntfrq: 0,
        }
    }

    /// Clear every register.
    pub fn reset(&mut self)
        ensures
            *final(self) == SseTimer::new_spec(),
    {
        self.cntp_ctl = 0;
        self.cntp_cval = 0;
        self.cntp_aival = 0;
        self.cntp_aival_ctl = 0;
        self.cntp_aival_reload = 0;
        self.cntfrq = 0;
    }

    /// The timer with every register clear.
    pub open spec fn new_spec() -> SseTimer {
        SseTimer {
            cntp_ctl: 0,
            cntp_cval: 0,
            cntp_aival: 0,
            cntp_aival_ctl: 0,
            cntp_aival_reload: 0,
            cntfrq: 0,
        }
    }

    /// Whether the timer is enabled.
    pub fn enabled(&self) -> (r: bool)
        ensures
            r == (self.cntp_ctl & CTL_ENABLE != 0),
    {
        (self.cntp_ctl & CTL_ENABLE) != 0
    }

    /// Whether auto-increment mode is on.
    pub fn is_autoinc(&self) -> (r: bool)
        ensures
            r == (self.cntp_aival_ctl & AIVAL_CTL_EN != 0),
    {
        (self.cntp_aival_ctl & AIVAL_CTL_EN) != 0
    }

    /// The timer condition at `counter`.
    pub fn timer_status(&self, counter: u64) -> (r: bool)
        ensures
            r == timer_cond(*self, counter),
    {
        if !self.enabled() {
            return false;
        }
        if self.is_autoinc() {
            (self.cntp_aival_ctl & AIVAL_CTL_CLR) != 0
        } else {
            counter >= self.cntp_cval
        }
    }

    /// Evaluate the timer at `counter`: latch an auto-increment event and
    /// re-arm it, update ISTATUS, and return the interrupt level.
    pub fn tick(&mut self, counter: u64) -> (r: bool)
        requires
            counter_room(counter),
        ensures
            *final(self) == timer_ticked(*old(self), counter),
            r == timer_level(*final(self), counter),
    {
        if self.is_autoinc() && self.enabled() && counter >= self.cntp_aival {
            self.cntp_aival_ctl = self.cntp_aival_ctl | AIVAL_CTL_CLR;
            self.cntp_aival = counter + self.cntp_aival_reload as u64;
        }
        if self.timer_status(counter) {
            self.cntp_ctl = self.cntp_ctl | CTL_ISTATUS;
        } else {
            self.cntp_ctl = self.cntp_ctl & !CTL_ISTATUS;
        }
        self.timer_status(counter) && (self.cntp_ctl & CTL_IMASK) == 0
    }

    /// A 32-bit guest read at counter value `counter`; other widths read
    /// 0.
    pub fn read(&self, offset: u64, size: u32, counter: u64) -> (r: u64)
        ensures
            r == (if size != 4 {
                0
            } else if offset == A_CNTPCT_LO {
                counter % 0x1_0000_0000
            } else if offset == A_CNTPCT_HI {
                counter / 0x1_0000_0000
            } else if offset == A_CNTFRQ {
                self.cntfrq as u64
            } else if offset == A_CNTP_CVAL_LO {
                self.cntp_cval % 0x1_0000_0000
            } else if offset == A_CNTP_CVAL_HI {
                self.cntp_cval / 0x1_0000_0000
            } else if offset == A_CNTP_TVAL {
                self.cntp_cval.wrapping_sub(counter) % 0x1_0000_0000
            } else if offset == A_CNTP_CTL {
                (if timer_cond(*self, counter) {
                    self.cntp_ctl | CTL_ISTATUS
                } else {
                    self.cntp_ctl
                }) as u64
            } else if offset == A_CNTP_AIVAL_LO {
                self.cntp_aival % 0x1_0000_0000
            } else if offset == A_CNTP_AIVAL_HI {
                self.cntp_aival / 0x1_0000_0000
            } else if offset == A_CNTP_AIVAL_RELOAD {
                self.cntp_aival_reload as u64
            } else if offset == A_CNTP_AIVAL_CTL {
                self.cntp_aival_ctl as u64
            } else if offset == A_CNTP_CFG {
                1
            } else if A_PID4 <= offset <= 0xFFC {
                id_byte_of(0xB7, ((offset - A_PID4) / 4) as int)
            } else {
                0
            }),
    {
        if size != 4 {
            return 0;
        }
        if offset == A_CNTPCT_LO {
            counter % 0x1_0000_0000
        } else if offset == A_CNTPCT_HI {
            counter / 0x1_0000_0000
        } else if offset == A_CNTFRQ {
            self.cntfrq as u64
        } else if offset == A_CNTP_CVAL_LO {
            self.cntp_cval % 0x1_0000_0000
        } else if offset == A_CNTP_CVAL_HI {
            self.cntp_cval / 0x1_0000_0000
        } else if offset == A_CNTP_TVAL {
            self.cntp_cval.wrapping_sub(counter) % 0x1_0000_0000
        } else if offset == A_CNTP_CTL {
            let mut val = self.cntp_ctl;
            if self.timer_status(counter) {
                val = val | CTL_ISTATUS;
            }
            val as u64
        } else if offset == A_CNTP_AIVAL_LO {
            self.cntp_aival % 0x1_0000_0000
        } else if offset == A_CNTP_AIVAL_HI {
            self.cntp_aival / 0x1_0000_0000
        } else if offset == A_CNTP_AIVAL_RELOAD {
            self.cntp_aival_reload as u64
        } else if offset == A_CNTP_AIVAL_CTL {
            self.cntp_aival_ctl as u64
        } else if offset == A_CNTP_CFG {
            1
        } else if A_PID4 <= offset && offset <= 0xFFC {
            read_id(0xB7, offset)
        } else {
            0
        }
    }

    /// A 32-bit guest write at counter value `counter`; other widths are
    /// ignored. Every accepted write re-evaluates the timer; the new
    /// interrupt level is returned.
    pub fn write(&mut self, offset: u64, size: u32, val: u64, counter: u64) -> (r: Option<bool>)
        requires
            counter_room(counter),
        ensures
            size != 4 ==> *final(self) == *old(self) && r is None,
            size == 4 ==> {
                let s = *old(self);
                let value = val as u32;
                let s1 = if offset == A_CNTFRQ {
                    SseTimer { cntfrq: value, ..s }
                } else if offset == A_CNTP_CVAL_LO {
                    SseTimer {
                        cntp_cval: ((s.cntp_cval / 0x1_0000_0000) * 0x1_0000_0000 + val % 0x1_0000_0000) as u64,
                        ..s
                    }
                } else if offset == A_CNTP_CVAL_HI {
                    SseTimer {
                        cntp_cval: ((val % 0x1_0000_0000) * 0x1_0000_0000 + s.cntp_cval % 0x1_0000_0000) as u64,
                        ..s
                    }
                } else if offset == A_CNTP_TVAL {
                    SseTimer { cntp_cval: counter.wrapping_add((value as i32) as i64 as u64), ..s }
                } else if offset == A_CNTP_CTL {
                    let new_ctl = value & (CTL_ENABLE | CTL_IMASK);
                    let t = SseTimer { cntp_ctl: new_ctl, ..s };
                    if (s.cntp_ctl ^ new_ctl) & CTL_ENABLE != 0 && new_ctl & CTL_ENABLE != 0
                        && s.cntp_aival_ctl & AIVAL_CTL_EN != 0 {
                        SseTimer { cntp_aival: (counter + s.cntp_aival_reload) as u64, ..t }
                    } else {
                        t
                    }
                } else if offset == A_CNTP_AIVAL_RELOAD {
                    SseTimer { cntp_aival_reload: value, ..s }
                } else if offset == A_CNTP_AIVAL_CTL {
                    let c1 = (s.cntp_aival_ctl & !AIVAL_CTL_EN) | (value & AIVAL_CTL_EN);
                    let c2 = if value & AIVAL_CTL_CLR == 0 {
                        c1 & !AIVAL_CTL_CLR
                    } else {
                        c1
                    };
                    let t = SseTimer { cntp_aival_ctl: c2, ..s };
                    if (s.cntp_aival_ctl ^ c2) & AIVAL_CTL_EN != 0 && s.cntp_ctl & CTL_ENABLE != 0
                        && c2 & AIVAL_CTL_EN != 0 {
                        SseTimer { cntp_aival: (counter + s.cntp_aival_reload) as u64, ..t }
                    } else {
                        t
                    }
                } else {
                    s
                };
                &&& *final(self) == timer_ticked(s1, counter)
                &&& r == Some(timer_level(*final(self), counter))
            },
    {
        if size != 4 {
            return None;
        }
        if offset == A_CNTFRQ {
            self.cntfrq = val as u32;
        } else if offset == A_CNTP_CVAL_LO {
            self.cntp_cval = (self.cntp_cval / 0x1_0000_0000) * 0x1_0000_0000 + val % 0x1_0000_0000;
        } else if offset == A_CNTP_CVAL_HI {
            self.cntp_cval = (val % 0x1_0000_0000) * 0x1_0000_0000 + self.cntp_cval % 0x1_0000_0000;
        } else if offset == A_CNTP_TVAL {
            let tval = val as u32 as i32;
            self.cntp_cval = counter.wrapping_add(tval as i64 as u64);
        } else if offset == A_CNTP_CTL {
            let value = val as u32;
            let old_ctl = self.cntp_ctl;
            let new_ctl = value & (CTL_ENABLE | CTL_IMASK);
            self.cntp_ctl = new_ctl;
            let enabled_changed = (old_ctl ^ new_ctl) & CTL_ENABLE != 0;
            if enabled_changed && self.enabled() && self.is_autoinc() {
                self.cntp_aival = counter + self.cntp_aival_reload as u64;
            }
        } else if offset == A_CNTP_AIVAL_RELOAD {
            self.cntp_aival_reload = val as u32;
        } else if offset == A_CNTP_AIVAL_CTL {
            let value = val as u32;
            let old_ctl = self.cntp_aival_ctl;
            self.cntp_aival_ctl = (self.cntp_aival_ctl & !AIVAL_CTL_EN) | (value & AIVAL_CTL_EN);
            if (value & AIVAL_CTL_CLR) == 0 {
                self.cntp_aival_ctl = self.cntp_aival_ctl & !AIVAL_CTL_CLR;
            }
            let en_changed = (old_ctl ^ self.cntp_aival_ctl) & AIVAL_CTL_EN != 0;
            if en_changed && self.enabled() && self.is_autoinc() {
                self.cntp_aival = counter + self.cntp_aival_reload as u64;
            }
        }
        Some(self.tick(counter))
    }
}

} // verus!
