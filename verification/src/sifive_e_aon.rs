//! SiFive E always-on block: the watchdog timer registers (the RTC,
//! LFROSC, backup and PMU windows read as zero and ignore writes).
//!
//! The virtual clock is an input: every access takes the current time
//! in nanoseconds, `now`.
use vstd::prelude::*;
use crate::ds1338::tdiv;

verus! {

pub const AON_WDT_WDOGCFG: u64 = 0x00;
pub const AON_WDT_WDOGCOUNT: u64 = 0x08;
pub const AON_WDT_WDOGS: u64 = 0x10;
pub const AON_WDT_WDOGFEED: u64 = 0x18;
pub const AON_WDT_WDOGKEY: u64 = 0x1C;
pub const AON_WDT_WDOGCOMPARE0: u64 = 0x20;
pub const SIFIVE_E_AON_RTC: u64 = 0x40;
pub const SIFIVE_E_AON_MAX: u64 = 0x150;

pub const SIFIVE_E_AON_WDOGKEY: u32 = 0x0051_F15E;
pub const SIFIVE_E_AON_WDOGFEED: u32 = 0x0D09_F00D;
pub const SIFIVE_E_LFCLK_DEFAULT_FREQ: u64 = 32768;

pub const WDOGCFG_RSTEN: u32 = 8;
pub const WDOGCFG_ZEROCOMPARE: u32 = 9;
pub const WDOGCFG_EN_ALWAYS: u32 = 12;
pub const WDOGCFG_EN_CORE_AWAKE: u32 = 13;
pub const WDOGCFG_IP0: u32 = 28;
pub const WDOGCOUNT_VALUE_MASK: u32 = 0x7FFF_FFFF;

/// The watchdog registers.
pub struct SiFiveEAon {
    pub wdogcfg: u32,
    pub wdogcompare0: u16,
    pub wdogcount: u32,
    pub wdogunlock: u8,
    /// Time (ns) from which the counter last advanced.
    pub restart_time: i64,
    /// Frequency of the watchdog clock in Hz.
    pub wdogclk_freq: u64,
}

/// Bit `pos` of `val`.
pub open spec fn bit_of(val: u32, pos: u32) -> u32 {
    (val >> pos) & 1
}

/// The counter runs when either enable bit is set.
pub open spec fn wdog_enabled(cfg: u32) -> bool {
    bit_of(cfg, WDOGCFG_EN_ALWAYS) == 1 || bit_of(cfg, WDOGCFG_EN_CORE_AWAKE) == 1
}

/// The arithmetic of advancing the counter to `now` stays in `i64`.
pub open spec fn aon_time_ok(s: SiFiveEAon, now: i64) -> bool {
    let delta = now - s.restart_time;
    &&& i64::MIN <= delta <= i64::MAX
    &&& i64::MIN <= delta * (s.wdogclk_freq as i64) <= i64::MAX
}

/// What an access at `now` needs: the time arithmetic fits whenever the
/// counter is running.
pub open spec fn aon_access_ok(s: SiFiveEAon, now: i64) -> bool {
    wdog_enabled(s.wdogcfg) ==> aon_time_ok(s, now)
}

/// Watchdog ticks elapsed since `restart_time`, truncated toward zero
/// (the frequency taken as an `i64`).
pub open spec fn elapsed_ticks(s: SiFiveEAon, now: i64) -> int {
    tdiv((now - s.restart_time) * (s.wdogclk_freq as i64), 1_000_000_000)
}

/// The registers after advancing the counter to `now`.
pub open spec fn aon_advance(s: SiFiveEAon, now: i64) -> SiFiveEAon {
    if !wdog_enabled(s.wdogcfg) {
        s
    } else {
        SiFiveEAon {
            wdogcount: s.wdogcount.wrapping_add(elapsed_ticks(s, now) as u32) & WDOGCOUNT_VALUE_MASK,
            restart_time: now,
            ..s
        }
    }
}

/// The registers after advancing to `now` and comparing the scaled
/// count with `wdogcompare0`: a match sets the pending bit and, with
/// ZEROCOMPARE, clears the counter.
pub open spec fn aon_update(s: SiFiveEAon, now: i64) -> SiFiveEAon {
    let a = aon_advance(s, now);
    let scaled = (a.wdogcount >> (a.wdogcfg & 0xF)) as u16;
    if scaled >= a.wdogcompare0 {
        SiFiveEAon {
            wdogcount: if bit_of(a.wdogcfg, WDOGCFG_ZEROCOMPARE) == 1 { 0 } else { a.wdogcount },
            wdogcfg: a.wdogcfg | (1u32 << WDOGCFG_IP0),
            ..a
        }
    } else {
        a
    }
}

/// A guest read: the registers after it and the value read.
pub open spec fn aon_read(s: SiFiveEAon, offset: u64, size: u32, now: i64) -> (SiFiveEAon, u64) {
    if size != 4 || offset >= SIFIVE_E_AON_RTC {
        (s, 0)
    } else if offset == AON_WDT_WDOGCFG {
        (s, s.wdogcfg as u64)
    } else if offset == AON_WDT_WDOGCOUNT {
        let a = aon_advance(s, now);
        (a, a.wdogcount as u64)
    } else if offset == AON_WDT_WDOGS {
        let a = aon_advance(s, now);
        (a, (a.wdogcount >> (a.wdogcfg & 0xF)) as u64)
    } else if offset == AON_WDT_WDOGKEY {
        (s, s.wdogunlock as u64)
    } else if offset == AON_WDT_WDOGCOMPARE0 {
        (s, s.wdogcompare0 as u64)
    } else {
        (s, 0)
    }
}

/// The registers after the unlocked write of `value` to a writable
/// watchdog register, before the compare is re-evaluated.
pub open spec fn aon_unlocked_write(s: SiFiveEAon, offset: u64, value: u32, now: i64) -> SiFiveEAon {
    if offset == AON_WDT_WDOGCFG {
        let old_en = wdog_enabled(s.wdogcfg);
        let new_en = wdog_enabled(value);
        let t = if old_en && !new_en {
            aon_advance(s, now)
        } else if !old_en && new_en {
            SiFiveEAon { restart_time: now, ..s }
        } else {
            s
        };
        SiFiveEAon { wdogcfg: value, wdogunlock: 0, ..t }
    } else if offset == AON_WDT_WDOGCOUNT {
        SiFiveEAon { wdogcount: value & WDOGCOUNT_VALUE_MASK, restart_time: now, wdogunlock: 0, ..s }
    } else if offset == AON_WDT_WDOGFEED {
        if value == SIFIVE_E_AON_WDOGFEED {
            SiFiveEAon { wdogcount: 0, restart_time: now, wdogunlock: 0, ..s }
        } else {
            SiFiveEAon { wdogunlock: 0, ..s }
        }
    } else {
        SiFiveEAon { wdogcompare0: value as u16, wdogunlock: 0, ..s }
    }
}

/// Registers that take an unlocked write.
pub open spec fn aon_locked_register(offset: u64) -> bool {
    offset == AON_WDT_WDOGCFG || offset == AON_WDT_WDOGCOUNT || offset == AON_WDT_WDOGFEED
        || offset == AON_WDT_WDOGCOMPARE0
}

/// A guest write: the registers after it, and the level driven onto the
/// interrupt line when the write reaches the compare (`None` when it
/// is ignored or only unlocks).
pub open spec fn aon_write(s: SiFiveEAon, offset: u64, size: u32, val: u64, now: i64) -> (
    SiFiveEAon,
    Option<bool>,
) {
    let value = val as u32;
    if size != 4 || offset >= SIFIVE_E_AON_RTC {
        (s, None)
    } else if offset == AON_WDT_WDOGKEY {
        if value == SIFIVE_E_AON_WDOGKEY {
            (SiFiveEAon { wdogunlock: 1, ..s }, None)
        } else {
            (s, None)
        }
    } else if !aon_locked_register(offset) || s.wdogunlock == 0 {
        (s, None)
    } else {
        let t = aon_update(aon_unlocked_write(s, offset, value, now), now);
        (t, Some(bit_of(t.wdogcfg, WDOGCFG_IP0) != 0))
    }
}

/// `(val * num) / den` in `i64` (both factors taken as `i64`),
/// truncated toward zero.
fn muldiv64(val: i64, num: u64, den: u64) -> (r: i64)
    requires
        0 < den <= i64::MAX,
        i64::MIN <= val * (num as i64) <= i64::MAX,
    ensures
        r == tdiv(val * (num as i64), den as int),
{
    let p = val * (num as i64);
    p / (den as i64)
}

fn field_get(val: u32, pos: u32) -> (r: u32)
    requires
        pos < 32,
    ensures
        r == bit_of(val, pos),
{
    (val >> pos) & 1
}

fn scale_get(val: u32) -> (r: u32)
    ensures
        r == val & 0xF,
        r < 16,
{
    proof {
        assert(val & 0xF < 16) by (bit_vector);
    }
    val & 0xF
}

fn field_set(val: u32, pos: u32, bit: u32) -> (r: u32)
    requires
        pos < 32,
    ensures
        r == (if bit != 0 { val | (1u32 << pos) } else { val & !(1u32 << pos) }),
{
    let mask = 1u32 << pos;
    if bit != 0 {
        val | mask
    } else {
        val & !mask
    }
}

impl SiFiveEAon {
    /// Registers at power-on with a watchdog clock of `wdogclk_freq` Hz.
    pub fn with_freq(wdogclk_freq: u64) -> (r: Self)
        ensures
            r == (SiFiveEAon {
                wdogcfg: 0,
                wdogcompare0: 0xbeef,
                wdogcount: 0,
                wdogunlock: 0,
                restart_time: 0,
                wdogclk_freq,
            }),
    {
        SiFiveEAon {
            wdogcfg: 0,
            wdogcompare0: 0xbeef,
            wdogcount: 0,
            wdogunlock: 0,
            restart_time: 0,
            wdogclk_freq,
        }
    }

    /// Registers at power-on with the default 32768 Hz clock.
    pub fn new() -> (r: Self)
        ensures
            r == SiFiveEAon::spec_with_freq(SIFIVE_E_LFCLK_DEFAULT_FREQ),
    {
        Self::with_freq(SIFIVE_E_LFCLK_DEFAULT_FREQ)
    }

    pub open spec fn spec_with_freq(wdogclk_freq: u64) -> SiFiveEAon {
        SiFiveEAon {
            wdogcfg: 0,
            wdogcompare0: 0xbeef,
            wdogcount: 0,
            wdogunlock: 0,
            restart_time: 0,
            wdogclk_freq,
        }
    }

    /// Reset: clear the reset-enable and both run-enable bits and restore
    /// the compare value; the interrupt line is lowered by the caller.
    pub fn reset_runtime(&mut self)
        ensures
            *final(self) == (SiFiveEAon {
                wdogcfg: old(self).wdogcfg & !((1u32 << WDOGCFG_RSTEN) | (1u32 << WDOGCFG_EN_ALWAYS) | (1u32 << WDOGCFG_EN_CORE_AWAKE)),
                wdogcompare0: 0xbeef,
                ..*old(self)
            }),
    {
        self.wdogcfg = self.wdogcfg & !((1u32 << WDOGCFG_RSTEN) | (1u32 << WDOGCFG_EN_ALWAYS) | (1u32 << WDOGCFG_EN_CORE_AWAKE));
        self.wdogcompare0 = 0xbeef;
    }

    fn is_enabled(&self) -> (r: bool)
        ensures
            r == wdog_enabled(self.wdogcfg),
    {
        field_get(self.wdogcfg, WDOGCFG_EN_ALWAYS) == 1 || field_get(self.wdogcfg, WDOGCFG_EN_CORE_AWAKE) == 1
    }

    fn update_wdogcount(&mut self, now: i64)
        requires
            aon_access_ok(*old(self), now),
        ensures
            *final(self) == aon_advance(*old(self), now),
    {
        if !self.is_enabled() {
            return;
        }
        let delta_ns = now - self.restart_time;
        let ticks = muldiv64(delta_ns, self.wdogclk_freq, 1_000_000_000);
        self.wdogcount = self.wdogcount.wrapping_add(ticks as u32) & WDOGCOUNT_VALUE_MASK;
        self.restart_time = now;
    }

    fn update_state(&mut self, now: i64)
        requires
            aon_access_ok(*old(self), now),
        ensures
            *final(self) == aon_update(*old(self), now),
    {
        self.update_wdogcount(now);
        let scale = scale_get(self.wdogcfg);
        let wdogs = (self.wdogcount >> scale) as u16;
        if wdogs >= self.wdogcompare0 {
            if field_get(self.wdogcfg, WDOGCFG_ZEROCOMPARE) == 1 {
                self.wdogcount = 0;
            }
            self.wdogcfg = field_set(self.wdogcfg, WDOGCFG_IP0, 1);
        }
    }

    /// A guest read of `size` bytes at `offset` at time `now`; reading
    /// the counter first advances it.
    pub fn read(&mut self, offset: u64, size: u32, now: i64) -> (r: u64)
        requires
            aon_access_ok(*old(self), now),
        ensures
            (*final(self), r) == aon_read(*old(self), offset, size, now),
    {
        if size != 4 || offset >= SIFIVE_E_AON_MAX || offset >= SIFIVE_E_AON_RTC {
            return 0;
        }
        if offset == AON_WDT_WDOGCFG {
            self.wdogcfg as u64
        } else if offset == AON_WDT_WDOGCOUNT {
            self.update_wdogcount(now);
            self.wdogcount as u64
        } else if offset == AON_WDT_WDOGS {
            self.update_wdogcount(now);
            let scale = scale_get(self.wdogcfg);
            (self.wdogcount >> scale) as u64
        } else if offset == AON_WDT_WDOGKEY {
            self.wdogunlock as u64
        } else if offset == AON_WDT_WDOGCOMPARE0 {
            self.wdogcompare0 as u64
        } else {
            0
        }
    }

    /// A guest write of `size` bytes at `offset` at time `now`. Writes to
    /// the configuration, count, feed and compare registers need the key
    /// written just before and consume it. Returns the level of the
    /// interrupt line (the pending bit) when the write reached the
    /// compare.
    pub fn write(&mut self, offset: u64, size: u32, val: u64, now: i64) -> (r: Option<bool>)
        requires
            aon_access_ok(*old(self), now),
        ensures
            (*final(self), r) == aon_write(*old(self), offset, size, val, now),
    {
        if size != 4 || offset >= SIFIVE_E_AON_MAX || offset >= SIFIVE_E_AON_RTC {
            return None;
        }
        let value = val as u32;
        if offset == AON_WDT_WDOGKEY {
            if value == SIFIVE_E_AON_WDOGKEY {
                self.wdogunlock = 1;
            }
            return None;
        }
        if !(offset == AON_WDT_WDOGCFG || offset == AON_WDT_WDOGCOUNT || offset == AON_WDT_WDOGFEED
            || offset == AON_WDT_WDOGCOMPARE0) || self.wdogunlock == 0 {
            return None;
        }
        if offset == AON_WDT_WDOGCFG {
            let old_en = self.is_enabled();
            let new_en = field_get(value, WDOGCFG_EN_ALWAYS) == 1 || field_get(value, WDOGCFG_EN_CORE_AWAKE) == 1;
            if old_en && !new_en {
                self.update_wdogcount(now);
            } else if !old_en && new_en {
                self.restart_time = now;
            }
            self.wdogcfg = value;
            self.wdogunlock = 0;
        } else if offset == AON_WDT_WDOGCOUNT {
            self.wdogcount = value & WDOGCOUNT_VALUE_MASK;
            self.restart_time = now;
            self.wdogunlock = 0;
        } else if offset == AON_WDT_WDOGFEED {
            if value == SIFIVE_E_AON_WDOGFEED {
                self.wdogcount = 0;
                self.restart_time = now;
            }
            self.wdogunlock = 0;
        } else {
            self.wdogcompare0 = value as u16;
            self.wdogunlock = 0;
        }
        self.update_state(now);
        Some(field_get(self.wdogcfg, WDOGCFG_IP0) != 0)
    }
}


/// The key admits exactly one protected write: writing the key unlocks
/// the registers, the next four-byte write to the configuration, count,
/// feed or compare register takes effect and locks them again, so a
/// second such write changes nothing; while locked, such a write changes
/// nothing; and a write of another size, or past the watchdog's
/// registers, changes nothing.
pub proof fn lemma_key_admits_one_write(
    s: SiFiveEAon,
    offset: u64,
    val: u64,
    now: i64,
    offset2: u64,
    val2: u64,
    now2: i64,
)
    requires
        aon_locked_register(offset),
        aon_locked_register(offset2),
    ensures
        ({
            let k = aon_write(s, AON_WDT_WDOGKEY, 4, SIFIVE_E_AON_WDOGKEY as u64, now).0;
            let w = aon_write(k, offset, 4, val, now);
            &&& k == (SiFiveEAon { wdogunlock: 1, ..s })
            &&& w.1 is Some
            &&& w.0.wdogunlock == 0
            &&& aon_write(w.0, offset2, 4, val2, now2) == (w.0, None::<bool>)
        }),
        s.wdogunlock == 0 ==> aon_write(s, offset, 4, val, now) == (s, None::<bool>),
        forall|off: u64, size: u32, v: u64, t: i64|
            size != 4 || off >= SIFIVE_E_AON_RTC ==> #[trigger] aon_write(s, off, size, v, t) == (s, None::<bool>),
{
    let k = aon_write(s, AON_WDT_WDOGKEY, 4, SIFIVE_E_AON_WDOGKEY as u64, now).0;
    assert((SIFIVE_E_AON_WDOGKEY as u64) as u32 == SIFIVE_E_AON_WDOGKEY);
    let u = aon_unlocked_write(k, offset, val as u32, now);
    assert(u.wdogunlock == 0);
    assert(aon_advance(u, now).wdogunlock == 0);
    assert(aon_update(u, now).wdogunlock == 0);
}

} // verus!
