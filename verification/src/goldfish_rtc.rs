//! Goldfish real-time clock register model.
use vstd::prelude::*;

verus! {

pub const RTC_TIME_LOW: u64 = 0x00;
pub const RTC_TIME_HIGH: u64 = 0x04;
pub const RTC_ALARM_LOW: u64 = 0x08;
pub const RTC_ALARM_HIGH: u64 = 0x0c;
pub const RTC_IRQ_ENABLED: u64 = 0x10;
pub const RTC_CLEAR_ALARM: u64 = 0x14;
pub const RTC_ALARM_STATUS: u64 = 0x18;
pub const RTC_CLEAR_INTERRUPT: u64 = 0x1c;

/// The Goldfish RTC registers.
pub struct GoldfishRtc {
    /// Guest-visible time in nanoseconds (as a signed offset).
    pub tick_offset: i64,
    /// Alarm target in nanoseconds.
    pub alarm_next: u64,
    /// Whether the alarm timer is running.
    pub alarm_running: u32,
    /// Interrupt pending flag.
    pub irq_pending: u32,
    /// Interrupt enable flag.
    pub irq_enabled: u32,
    /// High 32 bits of the time latched by the last TIME_LOW read.
    pub time_high: u32,
}

/// The current time in nanoseconds.
pub open spec fn goldfish_tick(s: GoldfishRtc) -> u64 {
    s.tick_offset as u64
}

/// The interrupt level: an enabled interrupt is pending.
pub open spec fn goldfish_level(s: GoldfishRtc) -> bool {
    s.irq_pending & s.irq_enabled != 0
}

/// The registers after the alarm is checked against the current time.
pub open spec fn goldfish_checked(s: GoldfishRtc) -> GoldfishRtc {
    if s.alarm_next <= goldfish_tick(s) && s.alarm_running != 0 {
        GoldfishRtc { alarm_running: 0, irq_pending: 1, ..s }
    } else {
        s
    }
}

impl GoldfishRtc {
    /// Registers at power-on.
    pub fn new() -> (r: Self)
        ensures
            r == (GoldfishRtc {
                tick_offset: 0,
                alarm_next: 0,
                alarm_running: 0,
                irq_pending: 0,
                irq_enabled: 0,
                time_high: 0,
            }),
    {
        GoldfishRtc {
            tick_offset: 0,
            alarm_next: 0,
            alarm_running: 0,
            irq_pending: 0,
            irq_enabled: 0,
            time_high: 0,
        }
    }

    /// Reset: clear the alarm and interrupt state; the time is kept.
    pub fn reset(&mut self)
        ensures
            *final(self) == (GoldfishRtc {
                alarm_next: 0,
                alarm_running: 0,
                irq_pending: 0,
                irq_enabled: 0,
                time_high: 0,
                ..*old(self)
            }),
    {
        self.alarm_next = 0;
        self.alarm_running = 0;
        self.irq_pending = 0;
        self.irq_enabled = 0;
        self.time_high = 0;
    }

    /// The current time in nanoseconds.
    pub fn current_tick(&self) -> (r: u64)
        ensures
            r == goldfish_tick(*self),
    {
        self.tick_offset as u64
    }

    /// The interrupt level.
    pub fn update(&self) -> (r: bool)
        ensures
            r == goldfish_level(*self),
    {
        (self.irq_pending & self.irq_enabled) != 0
    }

    /// Fire the alarm if it is running and due; return the interrupt
    /// level.
    pub fn check_alarm(&mut self) -> (r: bool)
        ensures
            *final(self) == goldfish_checked(*old(self)),
            r == goldfish_level(*final(self)),
    {
        let ticks = self.current_tick();
        if self.alarm_next <= ticks && self.alarm_running != 0 {
            self.alarm_running = 0;
            self.irq_pending = 1;
        }
        self.update()
    }

    /// Advance time by `ns` nanoseconds (wrapping), check the alarm and
    /// return the interrupt level.
    pub fn tick(&mut self, ns: u64) -> (r: bool)
        ensures
            *final(self) == goldfish_checked(
                GoldfishRtc { tick_offset: (old(self).tick_offset as u64).wrapping_add(ns) as i64, ..*old(self) },
            ),
            r == goldfish_level(*final(self)),
    {
        let t = (self.tick_offset as u64).wrapping_add(ns);
        self.tick_offset = t as i64;
        self.check_alarm()
    }

    /// The current time in nanoseconds.
    pub fn current_time(&self) -> (r: u64)
        ensures
            r == goldfish_tick(*self),
    {
        self.current_tick()
    }

    /// Set the absolute time.
    pub fn set_time(&mut self, ns: u64)
        ensures
            *final(self) == (GoldfishRtc { tick_offset: ns as i64, ..*old(self) }),
    {
        self.tick_offset = ns as i64;
    }

    /// A 32-bit guest read; reading TIME_LOW latches the high half of
    /// the time for a following TIME_HIGH read. Other widths read 0.
    pub fn read(&mut self, offset: u64, size: u32) -> (r: u64)
        ensures
            size != 4 ==> r == 0 && *final(self) == *old(self),
            size == 4 && offset == RTC_TIME_LOW ==> r == goldfish_tick(*old(self)) % 0x1_0000_0000
                && *final(self) == (GoldfishRtc {
                time_high: (goldfish_tick(*old(self)) / 0x1_0000_0000) as u32,
                ..*old(self)
            }),
            size == 4 && offset != RTC_TIME_LOW ==> *final(self) == *old(self) && r == (if offset
                == RTC_TIME_HIGH {
                old(self).time_high as u64
            } else if offset == RTC_ALARM_LOW {
                old(self).alarm_next % 0x1_0000_0000
            } else if offset == RTC_ALARM_HIGH {
                old(self).alarm_next / 0x1_0000_0000
            } else if offset == RTC_IRQ_ENABLED {
                old(self).irq_enabled as u64
            } else if offset == RTC_ALARM_STATUS {
                old(self).alarm_running as u64
            } else {
                0
            }),
    {
        if size != 4 {
            return 0;
        }
        if offset == RTC_TIME_LOW {
            let tick = self.current_tick();
            self.time_high = (tick / 0x1_0000_0000) as u32;
            tick % 0x1_0000_0000
        } else if offset == RTC_TIME_HIGH {
            self.time_high as u64
        } else if offset == RTC_ALARM_LOW {
            self.alarm_next % 0x1_0000_0000
        } else if offset == RTC_ALARM_HIGH {
            self.alarm_next / 0x1_0000_0000
        } else if offset == RTC_IRQ_ENABLED {
            self.irq_enabled as u64
        } else if offset == RTC_ALARM_STATUS {
            self.alarm_running as u64
        } else {
            0
        }
    }

    /// A 32-bit guest write; other widths are ignored. Returns the new
    /// interrupt level when the write re-evaluates it.
    pub fn write(&mut self, offset: u64, size: u32, val: u64) -> (r: Option<bool>)
        ensures
            ({
                let v = (val % 0x1_0000_0000) as u32;
                let s = *old(self);
                let t = goldfish_tick(s);
                if size != 4 {
                    *final(self) == s && r is None
                } else if offset == RTC_TIME_LOW {
                    *final(self) == (GoldfishRtc {
                        tick_offset: ((t / 0x1_0000_0000) * 0x1_0000_0000 + v) as u64 as i64,
                        ..s
                    }) && r is None
                } else if offset == RTC_TIME_HIGH {
                    *final(self) == (GoldfishRtc {
                        tick_offset: (v * 0x1_0000_0000 + t % 0x1_0000_0000) as u64 as i64,
                        ..s
                    }) && r is None
                } else if offset == RTC_ALARM_LOW {
                    *final(self) == goldfish_checked(
                        GoldfishRtc {
                            alarm_next: ((s.alarm_next / 0x1_0000_0000) * 0x1_0000_0000 + v) as u64,
                            alarm_running: 1,
                            ..s
                        },
                    ) && r == Some(goldfish_level(*final(self)))
                } else if offset == RTC_ALARM_HIGH {
                    *final(self) == (GoldfishRtc {
                        alarm_next: (v * 0x1_0000_0000 + s.alarm_next % 0x1_0000_0000) as u64,
                        ..s
                    }) && r is None
                } else if offset == RTC_IRQ_ENABLED {
                    *final(self) == (GoldfishRtc { irq_enabled: v & 1, ..s }) && r == Some(
                        goldfish_level(*final(self)),
                    )
                } else if offset == RTC_CLEAR_ALARM {
                    *final(self) == (GoldfishRtc { alarm_running: 0, ..s }) && r == Some(
                        goldfish_level(*final(self)),
                    )
                } else if offset == RTC_CLEAR_INTERRUPT {
                    *final(self) == (GoldfishRtc { irq_pending: 0, ..s }) && r == Some(
                        goldfish_level(*final(self)),
                    )
                } else {
                    *final(self) == s && r is None
                }
            }),
    {
        if size != 4 {
            return None;
        }
        let value = (val % 0x1_0000_0000) as u32;
        if offset == RTC_TIME_LOW {
            let current = self.current_tick();
            let new_tick = (current / 0x1_0000_0000) * 0x1_0000_0000 + value as u64;
            self.tick_offset = new_tick as i64;
            None
        } else if offset == RTC_TIME_HIGH {
            let current = self.current_tick();
            let new_tick = (value as u64) * 0x1_0000_0000 + current % 0x1_0000_0000;
            self.tick_offset = new_tick as i64;
            None
        } else if offset == RTC_ALARM_LOW {
            self.alarm_next = (self.alarm_next / 0x1_0000_0000) * 0x1_0000_0000 + value as u64;
            self.alarm_running = 1;
            Some(self.check_alarm())
        } else if offset == RTC_ALARM_HIGH {
            self.alarm_next = (value as u64) * 0x1_0000_0000 + self.alarm_next % 0x1_0000_0000;
            None
        } else if offset == RTC_IRQ_ENABLED {
            self.irq_enabled = value & 1;
            Some(self.update())
        } else if offset == RTC_CLEAR_ALARM {
            self.alarm_running = 0;
            Some(self.update())
        } else if offset == RTC_CLEAR_INTERRUPT {
            self.irq_pending = 0;
            Some(self.update())
        } else {
            None
        }
    }
}

} // verus!
