//! SiFive SPI controller: a register file, an eight-entry transmit FIFO
//! that is shifted out on the bus as soon as it is written, and an
//! eight-entry receive FIFO.
use vstd::prelude::*;
use crate::pl022::bus_reply;
use crate::spi::{SpiBus, SpiSlave, SpiDevState, SlaveState, entries_after_cs, entries_after_transfer};

verus! {

pub const R_SCKDIV: usize = 0;
pub const R_CSID: usize = 4;
pub const R_CSDEF: usize = 5;
pub const R_CSMODE: usize = 6;
pub const R_DELAY0: usize = 10;
pub const R_DELAY1: usize = 11;
pub const R_FMT: usize = 16;
pub const R_TXDATA: usize = 18;
pub const R_RXDATA: usize = 19;
pub const R_TXMARK: usize = 20;
pub const R_RXMARK: usize = 21;
pub const R_FCTRL: usize = 24;
pub const R_FFMT: usize = 25;
pub const R_IE: usize = 28;
pub const R_IP: usize = 29;
pub const SIFIVE_SPI_REG_NUM: usize = 30;
pub const TXDATA_FULL: u32 = 0x8000_0000;
pub const RXDATA_EMPTY: u32 = 0x8000_0000;
pub const IP_TXWM: u32 = 0x1;
pub const IP_RXWM: u32 = 0x2;
pub const FMT_DIR: u32 = 0x8;
pub const FIFO_CAPACITY: usize = 8;

/// `2^n` for a chip-select count below 32.
pub open spec fn pow2_32(n: u32) -> int {
    (1u32 << n) as int
}

/// The register file after reset for `num_cs` chip selects.
pub open spec fn reset_regs(num_cs: u32) -> Seq<u32> {
    Seq::new(
        SIFIVE_SPI_REG_NUM as nat,
        |i: int|
            if i == R_CSDEF {
                ((1u32 << num_cs) - 1) as u32
            } else if i == R_SCKDIV {
                3u32
            } else if i == R_DELAY0 {
                0x1001u32
            } else if i == R_DELAY1 {
                1u32
            } else {
                0u32
            },
    )
}

/// Whether a register offset is refused: past the register file, or a
/// reserved hole (refused unless `allow_reserved`).
pub open spec fn bad_reg(addr: u64, allow_reserved: bool) -> bool {
    if addr == 0x08 || addr == 0x0C || addr == 0x1C || addr == 0x20 || addr == 0x24 || addr == 0x30
        || addr == 0x34 || addr == 0x38 || addr == 0x3C || addr == 0x44 || addr == 0x58 || addr
        == 0x5C || addr == 0x68 || addr == 0x6C {
        allow_reserved
    } else {
        addr >= 0x78
    }
}

/// Bit `i` of the CSDEF register.
pub open spec fn csdef_bit(regs: Seq<u32>, i: int) -> bool {
    (regs[R_CSDEF as int] >> (i as u32)) & 1 == 1
}

/// The level driven on chip select `i`: the idle level, except for the
/// selected line in HOLD mode, which is asserted.
pub open spec fn cs_level(regs: Seq<u32>, i: int) -> bool {
    if regs[R_CSMODE as int] == 2 && i == regs[R_CSID as int] {
        csdef_bit(regs, i)
    } else {
        !csdef_bit(regs, i)
    }
}

/// The bus after driving chip selects `0..n` to `level(i)`, in order.
pub open spec fn cs_fold<T: SpiDevState>(entries: Seq<SlaveState<T>>, level: spec_fn(int) -> bool, n: nat) -> Seq<SlaveState<T>>
    decreases n,
{
    if n == 0 {
        entries
    } else {
        entries_after_cs(cs_fold(entries, level, (n - 1) as nat), (n - 1) as u8, level(n - 1))
    }
}

/// The interrupt-pending register after refreshing the watermarks.
pub open spec fn ip_after(regs: Seq<u32>, tx: nat, rx: nat) -> u32 {
    let ip = regs[R_IP as int];
    let a = if tx < regs[R_TXMARK as int] { ip | IP_TXWM } else { ip & !IP_TXWM };
    if rx > regs[R_RXMARK as int] { a | IP_RXWM } else { a & !IP_RXWM }
}

/// Shifting out the words `tx` from bus state `bus`: the words kept in
/// the receive FIFO (which holds `rx` words) and the bus afterwards. In
/// AUTO mode the chip select `id` is asserted around each word.
pub open spec fn spi_flush<T: SpiDevState>(
    tx: Seq<u8>,
    rx: Seq<u8>,
    bus: Option<Seq<SlaveState<T>>>,
    auto_mode: bool,
    id: u8,
    assert_level: bool,
    keep: bool,
) -> (Seq<u8>, Option<Seq<SlaveState<T>>>)
    decreases tx.len(),
{
    if tx.len() == 0 {
        (rx, bus)
    } else {
        let prev = spi_flush(tx.drop_last(), rx, bus, auto_mode, id, assert_level, keep);
        let w = tx.last() as u32;
        let (reply, after) = match prev.1 {
            Some(e) => {
                let e1 = if auto_mode { entries_after_cs(e, id, assert_level) } else { e };
                let e2 = entries_after_transfer(e1, w);
                let e3 = if auto_mode { entries_after_cs(e2, id, !assert_level) } else { e2 };
                (bus_reply(e1, w), Some(e3))
            },
            None => (0xFFu32, None),
        };
        let rx2 = if prev.0.len() < 8 && keep { prev.0.push((reply % 256) as u8) } else { prev.0 };
        (rx2, after)
    }
}

/// A SiFive SPI controller with `num_cs` chip selects, optionally
/// connected to an SPI bus.
pub struct SiFiveSpi<S: SpiSlave> {
    pub regs: [u32; SIFIVE_SPI_REG_NUM],
    pub tx: Vec<u8>,
    pub rx: Vec<u8>,
    pub num_cs: u32,
    pub ssi_bus: Option<SpiBus<S>>,
}

/// What a register write asks of the outside: the interrupt level, and
/// the chip-select levels when they were driven.
#[derive(Debug, Clone, PartialEq, Eq)]
pub struct SpiWriteEffect {
    pub irq: Option<bool>,
    pub cs_levels: Option<Vec<bool>>,
}

impl<S: SpiSlave> SiFiveSpi<S> {
    /// The slaves of the connected bus, if any.
    pub open spec fn bus_view(&self) -> Option<Seq<SlaveState<S::State>>> {
        match self.ssi_bus {
            Some(b) => Some(b.entries()),
            None => None,
        }
    }

    pub open spec fn wf(&self) -> bool {
        &&& self.tx@.len() <= 8
        &&& self.rx@.len() <= 8
        &&& self.num_cs < 32
        &&& self.regs@[R_CSID as int] < 32
        &&& match self.ssi_bus {
            Some(b) => b.wf(),
            None => true,
        }
    }

    /// A controller with one chip select.
    pub fn new() -> (r: Self)
        ensures
            r.wf(),
            r.num_cs == 1,
            r.regs@ == reset_regs(1),
            r.tx@.len() == 0 && r.rx@.len() == 0,
            r.ssi_bus is None,
    {
        Self::with_num_cs(1)
    }

    /// A controller with `num_cs` chip selects.
    pub fn with_num_cs(num_cs: u32) -> (r: Self)
        requires
            num_cs < 32,
        ensures
            r.wf(),
            r.num_cs == num_cs,
            r.regs@ == reset_regs(num_cs),
            r.tx@.len() == 0 && r.rx@.len() == 0,
            r.ssi_bus is None,
    {
        SiFiveSpi { regs: Self::initial_regs(num_cs), tx: Vec::new(), rx: Vec::new(), num_cs, ssi_bus: None }
    }

    fn initial_regs(num_cs: u32) -> (r: [u32; SIFIVE_SPI_REG_NUM])
        requires
            num_cs < 32,
        ensures
            r@ == reset_regs(num_cs),
    {
        let mut regs = [0u32; SIFIVE_SPI_REG_NUM];
        assert(1u32 << num_cs >= 1) by (bit_vector)
            requires
                num_cs < 32,
        ;
        regs[R_CSDEF] = (1u32 << num_cs) - 1;
        regs[R_SCKDIV] = 0x03;
        regs[R_DELAY0] = 0x1001;
        regs[R_DELAY1] = 0x01;
        proof {
            assert(regs@ =~= reset_regs(num_cs));
        }
        regs
    }

    /// Connect the controller to `bus`.
    pub fn connect_ssi_bus(&mut self, bus: SpiBus<S>)
        requires
            old(self).wf(),
            bus.wf(),
        ensures
            final(self).wf(),
            final(self).bus_view() == Some(bus.entries()),
            final(self).regs == old(self).regs,
            final(self).tx == old(self).tx && final(self).rx == old(self).rx,
            final(self).num_cs == old(self).num_cs,
    {
        self.ssi_bus = Some(bus);
    }

    /// Drive chip select `i` of `0..num_cs` to `level(regs, i)` on the
    /// bus, in order; give the levels.
    fn drive_cs(&mut self, idle_only: bool) -> (levels: Vec<bool>)
        requires
            old(self).wf(),
        ensures
            final(self).wf(),
            levels@.len() == old(self).num_cs,
            forall|i: int| 0 <= i < levels@.len() ==> levels@[i] == (if idle_only {
                !csdef_bit(old(self).regs@, i)
            } else {
                cs_level(old(self).regs@, i)
            }),
            final(self).bus_view() == match old(self).bus_view() {
                Some(e) => Some(cs_fold(
                    e,
                    |i: int| if idle_only { !csdef_bit(old(self).regs@, i) } else { cs_level(old(self).regs@, i) },
                    old(self).num_cs as nat,
                )),
                None => None,
            },
            final(self).regs == old(self).regs,
            final(self).tx == old(self).tx && final(self).rx == old(self).rx,
            final(self).num_cs == old(self).num_cs,
    {
        let ghost f = |i: int| if idle_only { !csdef_bit(old(self).regs@, i) } else { cs_level(old(self).regs@, i) };
        let mut levels: Vec<bool> = Vec::new();
        let mut i: u32 = 0;
        while i < self.num_cs
            invariant
                self.wf(),
                i <= self.num_cs,
                levels@.len() == i,
                forall|j: int| 0 <= j < i ==> levels@[j] == f(j),
                self.bus_view() == match old(self).bus_view() {
                    Some(e) => Some(cs_fold(e, f, i as nat)),
                    None => None,
                },
                self.regs == old(self).regs,
                self.tx == old(self).tx && self.rx == old(self).rx,
                self.num_cs == old(self).num_cs,
                f == (|i: int| if idle_only { !csdef_bit(old(self).regs@, i) } else { cs_level(old(self).regs@, i) }),
            decreases self.num_cs - i,
        {
            let bit = (self.regs[R_CSDEF] >> i) & 1 == 1;
            let level = if idle_only {
                !bit
            } else if self.regs[R_CSMODE] == 2 && i == self.regs[R_CSID] {
                bit
            } else {
                !bit
            };
            match &mut self.ssi_bus {
                Some(bus) => {
                    bus.set_cs(i as u8, level);
                },
                None => {},
            }
            levels.push(level);
            i = i + 1;
        }
        levels
    }

    /// Return to the reset state: drive every chip select to its idle
    /// level, reset the registers and FIFOs, then drive the chip selects
    /// from the reset registers; give those levels.
    pub fn reset_runtime(&mut self) -> (levels: Vec<bool>)
        requires
            old(self).wf(),
        ensures
            final(self).wf(),
            final(self).regs@ == reset_regs(old(self).num_cs),
            final(self).tx@.len() == 0 && final(self).rx@.len() == 0,
            final(self).num_cs == old(self).num_cs,
            levels@.len() == old(self).num_cs,
            forall|i: int| 0 <= i < levels@.len() ==> levels@[i] == cs_level(reset_regs(old(self).num_cs), i),
    {
        let _ = self.drive_cs(true);
        self.regs = Self::initial_regs(self.num_cs);
        self.tx = Vec::new();
        self.rx = Vec::new();
        self.drive_cs(false)
    }

    /// Refresh the watermark interrupts; give the interrupt level.
    fn update_irq(&mut self) -> (irq: bool)
        requires
            old(self).wf(),
        ensures
            final(self).wf(),
            final(self).regs@ == old(self).regs@.update(R_IP as int, ip_after(old(self).regs@, old(self).tx@.len(), old(self).rx@.len())),
            irq == (final(self).regs@[R_IP as int] & final(self).regs@[R_IE as int] != 0),
            final(self).tx == old(self).tx && final(self).rx == old(self).rx,
            final(self).ssi_bus == old(self).ssi_bus && final(self).num_cs == old(self).num_cs,
    {
        let ip = self.regs[R_IP];
        let a = if (self.tx.len() as u64) < self.regs[R_TXMARK] as u64 {
            ip | IP_TXWM
        } else {
            ip & !IP_TXWM
        };
        let b = if (self.rx.len() as u64) > self.regs[R_RXMARK] as u64 {
            a | IP_RXWM
        } else {
            a & !IP_RXWM
        };
        self.regs[R_IP] = b;
        self.regs[R_IP] & self.regs[R_IE] != 0
    }

    /// Shift every queued word out on the bus.
    fn flush_txfifo(&mut self)
        requires
            old(self).wf(),
        ensures
            final(self).wf(),
            ({
                let s = old(self);
                let auto_mode = s.regs@[R_CSMODE as int] == 0;
                let id = (s.regs@[R_CSID as int] % 256) as u8;
                let a = auto_mode && (s.regs@[R_CSDEF as int] >> (id as u32)) & 1 != 0;
                let keep = s.regs@[R_FMT as int] & FMT_DIR == 0;
                let res = spi_flush(s.tx@, s.rx@, s.bus_view(), auto_mode, id, a, keep);
                &&& final(self).rx@ == res.0
                &&& final(self).bus_view() == res.1
            }),
            final(self).tx@.len() == 0,
            final(self).regs == old(self).regs && final(self).num_cs == old(self).num_cs,
    {
        let auto_mode = self.regs[R_CSMODE] == 0;
        let cs_id = (self.regs[R_CSID] % 256) as u8;
        let csdef_assert = if auto_mode {
            (self.regs[R_CSDEF] >> (cs_id as u32)) & 1 != 0
        } else {
            false
        };
        let keep = self.regs[R_FMT] & FMT_DIR == 0;
        let ghost tx0 = self.tx@;
        let ghost rx0 = self.rx@;
        let ghost bus0 = self.bus_view();
        let ghost mut k: int = 0;
        proof {
            assert(tx0.take(0) =~= Seq::<u8>::empty());
        }
        while self.tx.len() > 0
            invariant
                self.wf(),
                0 <= k <= tx0.len(),
                self.tx@ == tx0.skip(k),
                self.rx@ == spi_flush(tx0.take(k), rx0, bus0, auto_mode, cs_id, csdef_assert, keep).0,
                self.bus_view() == spi_flush(tx0.take(k), rx0, bus0, auto_mode, cs_id, csdef_assert, keep).1,
                self.regs == old(self).regs && self.num_cs == old(self).num_cs,
                auto_mode == (self.regs@[R_CSMODE as int] == 0),
                keep == (self.regs@[R_FMT as int] & FMT_DIR == 0),
                tx0 == old(self).tx@ && rx0 == old(self).rx@ && bus0 == old(self).bus_view(),
            decreases self.tx@.len(),
        {
            let w = self.tx.remove(0);
            proof {
                assert(tx0.take(k + 1).drop_last() =~= tx0.take(k));
                assert(tx0.take(k + 1).last() == w);
            }
            let reply: u32 = match &mut self.ssi_bus {
                Some(bus) => {
                    if auto_mode {
                        bus.set_cs(cs_id, csdef_assert);
                    }
                    let r = bus.transfer(w as u32);
                    if auto_mode {
                        bus.set_cs(cs_id, !csdef_assert);
                    }
                    r
                },
                None => 0xFF,
            };
            if self.rx.len() < 8 && keep {
                self.rx.push((reply % 256) as u8);
            }
            proof {
                k = k + 1;
                assert(self.tx@ =~= tx0.skip(k));
            }
        }
        proof {
            assert(tx0.take(k) =~= tx0);
        }
    }

    /// A read of `offset`: the register value, and the interrupt level
    /// when reading the receive FIFO refreshed it.
    pub fn read(&mut self, offset: u64, size: u32) -> (r: (u64, Option<bool>))
        requires
            old(self).wf(),
        ensures
            final(self).wf(),
            bad_reg(offset, true) ==> r == (0u64, None::<bool>) && *final(self) == *old(self),
            !bad_reg(offset, true) && offset / 4 == R_TXDATA ==> *final(self) == *old(self) && r == (
                (if old(self).tx@.len() == 8 { TXDATA_FULL as u64 } else { 0u64 }),
                None::<bool>,
            ),
            !bad_reg(offset, true) && offset / 4 == R_RXDATA && old(self).rx@.len() == 0 ==> *final(self)
                == *old(self) && r == (RXDATA_EMPTY as u64, None::<bool>),
            !bad_reg(offset, true) && offset / 4 == R_RXDATA && old(self).rx@.len() > 0 ==> ({
                &&& final(self).rx@ == old(self).rx@.drop_first()
                &&& final(self).regs@ == old(self).regs@.update(R_IP as int, ip_after(old(self).regs@, old(self).tx@.len(), (old(self).rx@.len() - 1) as nat))
                &&& r == (old(self).rx@[0] as u64, Some(final(self).regs@[R_IP as int] & final(self).regs@[R_IE as int] != 0))
            }),
            !bad_reg(offset, true) && offset / 4 != R_TXDATA && offset / 4 != R_RXDATA ==> *final(self)
                == *old(self) && r == (old(self).regs@[(offset / 4) as int] as u64, None::<bool>),
    {
        if offset == 0x08 || offset == 0x0C || offset == 0x1C || offset == 0x20 || offset == 0x24
            || offset == 0x30 || offset == 0x34 || offset == 0x38 || offset == 0x3C || offset == 0x44
            || offset == 0x58 || offset == 0x5C || offset == 0x68 || offset == 0x6C || offset >= 0x78 {
            return (0, None);
        }
        let addr = (offset / 4) as usize;
        if addr == R_TXDATA {
            if self.tx.len() == 8 {
                return (TXDATA_FULL as u64, None);
            }
            return (0, None);
        }
        if addr == R_RXDATA {
            if self.rx.len() == 0 {
                return (RXDATA_EMPTY as u64, None);
            }
            let v = self.rx.remove(0);
            let irq = self.update_irq();
            return (v as u64, Some(irq));
        }
        (self.regs[addr] as u64, None)
    }

    /// A write of `val` to `offset`.
    pub fn write(&mut self, offset: u64, size: u32, val: u64) -> (r: SpiWriteEffect)
        requires
            old(self).wf(),
        ensures
            final(self).wf(),
            final(self).num_cs == old(self).num_cs,
            ({
                let value = (val % 0x1_0000_0000) as u32;
                let addr = offset / 4;
                let s = *old(self);
                &&& bad_reg(offset, false) ==> *final(self) == s && r == (SpiWriteEffect { irq: None, cs_levels: None })
                &&& !bad_reg(offset, false) && (addr == R_RXDATA || addr == R_IP || addr == R_FCTRL || addr == R_FFMT)
                    ==> *final(self) == s && r == (SpiWriteEffect { irq: None, cs_levels: None })
                &&& !bad_reg(offset, false) && addr == R_CSID && value >= s.num_cs ==> *final(self) == s
                    && r == (SpiWriteEffect { irq: None, cs_levels: None })
                &&& !bad_reg(offset, false) && addr == R_CSID && value < s.num_cs ==> (final(self).regs@[R_CSID as int] == value
                    && (r.cs_levels matches Some(l) && l@.len() == s.num_cs
                    && (forall|i: int| 0 <= i < s.num_cs ==> l@[i] == cs_level(s.regs@.update(R_CSID as int, value), i))))
                &&& !bad_reg(offset, false) && addr == R_CSMODE && value > 3 ==> *final(self) == s
                    && r == (SpiWriteEffect { irq: None, cs_levels: None })
                &&& !bad_reg(offset, false) && addr == R_CSMODE && value <= 3 ==> (final(self).regs@[R_CSMODE as int] == value
                    && (r.cs_levels matches Some(l) && l@.len() == s.num_cs
                    && (forall|i: int| 0 <= i < s.num_cs ==> l@[i] == cs_level(s.regs@.update(R_CSMODE as int, value), i))))
                &&& !bad_reg(offset, false) && addr == R_CSDEF && value >= pow2_32(s.num_cs) ==> *final(self) == s
                    && r == (SpiWriteEffect { irq: None, cs_levels: None })
                &&& !bad_reg(offset, false) && addr == R_CSDEF && value < pow2_32(s.num_cs) ==> (final(self).regs@[R_CSDEF as int] == value
                    && (r.cs_levels matches Some(l) && l@.len() == s.num_cs
                    && (forall|i: int| 0 <= i < s.num_cs ==> l@[i] == cs_level(s.regs@.update(R_CSDEF as int, value), i))))
                &&& !bad_reg(offset, false) && (addr == R_TXMARK || addr == R_RXMARK) && value >= 8 ==> *final(self) == s
                    && r == (SpiWriteEffect { irq: None, cs_levels: None })
                &&& !bad_reg(offset, false) && (addr == R_TXMARK || addr == R_RXMARK) && value < 8 ==> final(self).regs@
                    == s.regs@.update(addr as int, value).update(R_IP as int, ip_after(s.regs@.update(addr as int, value), s.tx@.len(), s.rx@.len()))
                    && r.cs_levels is None && r.irq is Some
                &&& !bad_reg(offset, false) && addr == R_TXDATA && s.tx@.len() < 8 ==> ({
                    let auto_mode = s.regs@[R_CSMODE as int] == 0;
                    let id = (s.regs@[R_CSID as int] % 256) as u8;
                    let a = auto_mode && (s.regs@[R_CSDEF as int] >> (id as u32)) & 1 != 0;
                    let keep = s.regs@[R_FMT as int] & FMT_DIR == 0;
                    let res = spi_flush(s.tx@.push((value % 256) as u8), s.rx@, s.bus_view(), auto_mode, id, a, keep);
                    &&& final(self).rx@ == res.0 && final(self).bus_view() == res.1 && final(self).tx@.len() == 0
                    &&& final(self).regs@ == s.regs@.update(R_IP as int, ip_after(s.regs@, 0, res.0.len()))
                    &&& r == (SpiWriteEffect { irq: Some(final(self).regs@[R_IP as int] & final(self).regs@[R_IE as int] != 0), cs_levels: None })
                })
                &&& !bad_reg(offset, false) && !(addr == R_CSID || addr == R_CSDEF || addr == R_CSMODE || addr == R_TXDATA
                    || addr == R_RXDATA || addr == R_IP || addr == R_TXMARK || addr == R_RXMARK || addr == R_FCTRL
                    || addr == R_FFMT) ==> final(self).regs@ == s.regs@.update(addr as int, value).update(
                    R_IP as int, ip_after(s.regs@.update(addr as int, value), s.tx@.len(), s.rx@.len()))
                    && r.cs_levels is None && r.irq is Some
            }),
    {
        if offset >= 0x78 {
            return SpiWriteEffect { irq: None, cs_levels: None };
        }
        let value = (val % 0x1_0000_0000) as u32;
        let addr = (offset / 4) as usize;
        let mut cs_levels: Option<Vec<bool>> = None;
        if addr == R_CSID {
            if value >= self.num_cs {
                return SpiWriteEffect { irq: None, cs_levels: None };
            }
            self.regs[R_CSID] = value;
            cs_levels = Some(self.drive_cs(false));
        } else if addr == R_CSDEF {
            let n = self.num_cs;
            assert(1u32 << n >= 1) by (bit_vector)
                requires
                    n < 32,
            ;
            if value >= (1u32 << n) {
                return SpiWriteEffect { irq: None, cs_levels: None };
            }
            self.regs[R_CSDEF] = value;
            cs_levels = Some(self.drive_cs(false));
        } else if addr == R_CSMODE {
            if value > 3 {
                return SpiWriteEffect { irq: None, cs_levels: None };
            }
            self.regs[R_CSMODE] = value;
            cs_levels = Some(self.drive_cs(false));
        } else if addr == R_TXDATA {
            if self.tx.len() < 8 {
                self.tx.push((value % 256) as u8);
                self.flush_txfifo();
            }
        } else if addr == R_RXDATA || addr == R_IP || addr == R_FCTRL || addr == R_FFMT {
            return SpiWriteEffect { irq: None, cs_levels: None };
        } else if addr == R_TXMARK || addr == R_RXMARK {
            if value >= 8 {
                return SpiWriteEffect { irq: None, cs_levels: None };
            }
            self.regs[addr] = value;
        } else {
            self.regs[addr] = value;
        }
        let irq = self.update_irq();
        SpiWriteEffect { irq: Some(irq), cs_levels }
    }
}

} // verus!
