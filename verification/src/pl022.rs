//! ARM PrimeCell PL022 synchronous serial port (SPI master).
//!
//! Words written to the data register queue in an eight-entry transmit
//! FIFO; while the port is enabled, queued words are shifted out on the
//! SPI bus (or looped back) and the replies queue in an eight-entry
//! receive FIFO.
use vstd::prelude::*;
use crate::spi::{SpiBus, SpiSlave, SpiDevState, SlaveState, any_selected, selected_reply, entries_after_transfer};

verus! {

pub const PL022_ID: [u8; 8] = [0x22, 0x10, 0x04, 0x00, 0x0d, 0xf0, 0x05, 0xb1];
pub const PL022_CR1_LBM: u32 = 0x1;
pub const PL022_CR1_SSE: u32 = 0x2;
pub const PL022_CR1_MS: u32 = 0x4;
pub const PL022_CR1_SDO: u32 = 0x8;
pub const PL022_SR_TFE: u32 = 0x1;
pub const PL022_SR_TNF: u32 = 0x2;
pub const PL022_SR_RNE: u32 = 0x4;
pub const PL022_SR_RFF: u32 = 0x8;
pub const PL022_SR_BSY: u32 = 0x10;
pub const PL022_INT_ROR: u32 = 0x1;
pub const PL022_INT_RT: u32 = 0x2;
pub const PL022_INT_RX: u32 = 0x4;
pub const PL022_INT_TX: u32 = 0x8;
pub const FIFO_SIZE: usize = 8;

/// The status register for FIFO fill levels `tx` and `rx`.
pub open spec fn pl022_sr(tx: nat, rx: nat) -> u32 {
    (if tx == 0 { PL022_SR_TFE } else { 0 }) | (if tx != 8 { PL022_SR_TNF } else { 0 }) | (if rx != 0 {
        PL022_SR_RNE
    } else {
        0
    }) | (if rx == 8 { PL022_SR_RFF } else { 0 }) | (if tx != 0 { PL022_SR_BSY } else { 0 })
}

/// The raw interrupt status for FIFO fill levels `tx` and `rx`.
pub open spec fn pl022_is(tx: nat, rx: nat) -> u32 {
    (if rx >= 4 { PL022_INT_RX } else { 0 }) | (if tx <= 4 { PL022_INT_TX } else { 0 })
}

/// The word a bus in state `entries` answers to `val`.
pub open spec fn bus_reply<T: SpiDevState>(entries: Seq<SlaveState<T>>, val: u32) -> u32 {
    if any_selected(entries) {
        selected_reply(entries, val)
    } else {
        0xFF
    }
}

/// Shift `words` out, in order: the received words (masked by `mask`)
/// and the bus state afterwards. In loopback each word comes back as
/// sent; without a bus each reply is 0.
pub open spec fn pl022_shift<T: SpiDevState>(
    words: Seq<u16>,
    entries: Option<Seq<SlaveState<T>>>,
    loopback: bool,
    mask: u32,
) -> (Seq<u16>, Option<Seq<SlaveState<T>>>)
    decreases words.len(),
{
    if words.len() == 0 {
        (Seq::empty(), entries)
    } else {
        let prev = pl022_shift(words.drop_last(), entries, loopback, mask);
        let v = words.last() as u32;
        if loopback {
            (prev.0.push((v & mask) as u16), prev.1)
        } else {
            match prev.1 {
                Some(e) => (prev.0.push((bus_reply(e, v) & mask) as u16), Some(entries_after_transfer(e, v))),
                None => (prev.0.push((0u32 & mask) as u16), None),
            }
        }
    }
}

/// How many queued words a transfer pass shifts: none while the port is
/// disabled, else as many as the receive FIFO has room for.
pub open spec fn xfer_count(cr1: u32, tx: nat, rx: nat) -> int {
    if cr1 & PL022_CR1_SSE == 0 {
        0
    } else if tx + rx <= 8 {
        tx as int
    } else {
        8 - rx
    }
}

/// The transmit FIFO, receive FIFO and bus after a transfer pass.
pub open spec fn xfer_result<T: SpiDevState>(
    tx: Seq<u16>,
    rx: Seq<u16>,
    bus: Option<Seq<SlaveState<T>>>,
    cr1: u32,
    mask: u32,
) -> (Seq<u16>, Seq<u16>, Option<Seq<SlaveState<T>>>) {
    let n = xfer_count(cr1, tx.len(), rx.len());
    let out = pl022_shift(tx.take(n), bus, cr1 & PL022_CR1_LBM != 0, mask);
    (tx.skip(n), rx + out.0, out.1)
}

/// A PL022 port, optionally connected to an SPI bus.
pub struct Pl022<S: SpiSlave> {
    pub cr0: u32,
    pub cr1: u32,
    pub bitmask: u32,
    pub sr: u32,
    pub cpsr: u32,
    pub is: u32,
    pub im: u32,
    pub tx: Vec<u16>,
    pub rx: Vec<u16>,
    pub ssi_bus: Option<SpiBus<S>>,
}

impl<S: SpiSlave> Pl022<S> {
    /// The words waiting to be sent, oldest first.
    pub closed spec fn tx_view(&self) -> Seq<u16> {
        self.tx@
    }

    /// The words received and not yet read, oldest first.
    pub closed spec fn rx_view(&self) -> Seq<u16> {
        self.rx@
    }

    /// The slaves of the connected bus, if any.
    pub closed spec fn bus_view(&self) -> Option<Seq<SlaveState<S::State>>> {
        match self.ssi_bus {
            Some(b) => Some(b.entries()),
            None => None,
        }
    }

    pub closed spec fn wf(&self) -> bool {
        &&& self.tx@.len() <= 8
        &&& self.rx@.len() <= 8
        &&& match self.ssi_bus {
            Some(b) => b.wf(),
            None => true,
        }
    }

    /// A port in its reset state, with no bus.
    pub fn new() -> (r: Self)
        ensures
            r.wf(),
            r.cr0 == 0 && r.cr1 == 0 && r.bitmask == 0 && r.cpsr == 0 && r.im == 0,
            r.sr == PL022_SR_TFE | PL022_SR_TNF,
            r.is == PL022_INT_TX,
            r.tx_view() == Seq::<u16>::empty(),
            r.rx_view() == Seq::<u16>::empty(),
            r.bus_view() is None,
    {
        Pl022 {
            cr0: 0,
            cr1: 0,
            bitmask: 0,
            sr: PL022_SR_TFE | PL022_SR_TNF,
            cpsr: 0,
            is: PL022_INT_TX,
            im: 0,
            tx: Vec::new(),
            rx: Vec::new(),
            ssi_bus: None,
        }
    }

    /// Connect the port to `bus`.
    pub fn connect_ssi_bus(&mut self, bus: SpiBus<S>)
        requires
            old(self).wf(),
            bus.wf(),
        ensures
            final(self).wf(),
            final(self).bus_view() == Some(bus.entries()),
            final(self).tx_view() == old(self).tx_view(),
            final(self).rx_view() == old(self).rx_view(),
    {
        self.ssi_bus = Some(bus);
    }

    /// Empty both FIFOs and mask every interrupt.
    pub fn reset_runtime(&mut self)
        requires
            old(self).wf(),
        ensures
            final(self).wf(),
            final(self).tx_view() == Seq::<u16>::empty(),
            final(self).rx_view() == Seq::<u16>::empty(),
            final(self).im == 0,
            final(self).is == PL022_INT_TX,
            final(self).sr == PL022_SR_TFE | PL022_SR_TNF,
            final(self).cr0 == old(self).cr0 && final(self).cr1 == old(self).cr1,
            final(self).bitmask == old(self).bitmask && final(self).cpsr == old(self).cpsr,
            final(self).bus_view() == old(self).bus_view(),
    {
        self.tx = Vec::new();
        self.rx = Vec::new();
        self.im = 0;
        self.is = PL022_INT_TX;
        self.sr = PL022_SR_TFE | PL022_SR_TNF;
    }

    fn update(&mut self)
        requires
            old(self).wf(),
        ensures
            final(self).wf(),
            final(self).sr == pl022_sr(old(self).tx@.len(), old(self).rx@.len()),
            final(self).is == pl022_is(old(self).tx@.len(), old(self).rx@.len()),
            final(self).tx == old(self).tx && final(self).rx == old(self).rx,
            final(self).ssi_bus == old(self).ssi_bus,
            final(self).cr0 == old(self).cr0 && final(self).cr1 == old(self).cr1,
            final(self).bitmask == old(self).bitmask && final(self).cpsr == old(self).cpsr,
            final(self).im == old(self).im,
    {
        let tx = self.tx.len();
        let rx = self.rx.len();
        self.sr = (if tx == 0 { PL022_SR_TFE } else { 0 }) | (if tx != 8 { PL022_SR_TNF } else { 0 })
            | (if rx != 0 { PL022_SR_RNE } else { 0 }) | (if rx == 8 { PL022_SR_RFF } else { 0 }) | (
        if tx != 0 {
            PL022_SR_BSY
        } else {
            0
        });
        self.is = (if rx >= 4 { PL022_INT_RX } else { 0 }) | (if tx <= 4 { PL022_INT_TX } else { 0 });
    }

    /// Shift queued words while the port is enabled and the receive FIFO
    /// has room, refresh the status, and give the interrupt level.
    fn xfer_and_update_irq(&mut self) -> (irq: bool)
        requires
            old(self).wf(),
        ensures
            final(self).wf(),
            ({
                let res = xfer_result(old(self).tx@, old(self).rx@, old(self).bus_view(), old(self).cr1, old(self).bitmask);
                &&& final(self).tx@ == res.0
                &&& final(self).rx@ == res.1
                &&& final(self).bus_view() == res.2
                &&& final(self).sr == pl022_sr(res.0.len(), res.1.len())
                &&& final(self).is == pl022_is(res.0.len(), res.1.len())
            }),
            irq == (final(self).is & final(self).im != 0),
            final(self).cr0 == old(self).cr0 && final(self).cr1 == old(self).cr1,
            final(self).bitmask == old(self).bitmask && final(self).cpsr == old(self).cpsr,
            final(self).im == old(self).im,
    {
        let ghost tx0 = self.tx@;
        let ghost rx0 = self.rx@;
        let ghost bus0 = self.bus_view();
        let loopback = self.cr1 & PL022_CR1_LBM != 0;
        if self.cr1 & PL022_CR1_SSE != 0 {
            let ghost mut k: int = 0;
            proof {
                assert(tx0.take(0) =~= Seq::<u16>::empty());
                assert(rx0 + Seq::<u16>::empty() =~= rx0);
            }
            while self.tx.len() > 0 && self.rx.len() < 8
                invariant
                    self.wf(),
                    0 <= k <= tx0.len(),
                    rx0.len() + k <= 8,
                    self.rx@.len() == rx0.len() + k,
                    self.tx@.len() == tx0.len() - k,
                    self.tx@ == tx0.skip(k),
                    self.rx@ == rx0 + pl022_shift(tx0.take(k), bus0, loopback, self.bitmask).0,
                    self.bus_view() == pl022_shift(tx0.take(k), bus0, loopback, self.bitmask).1,
                    loopback == (self.cr1 & PL022_CR1_LBM != 0),
                    self.cr0 == old(self).cr0 && self.cr1 == old(self).cr1,
                    self.bitmask == old(self).bitmask && self.cpsr == old(self).cpsr,
                    self.im == old(self).im,
                    self.cr1 & PL022_CR1_SSE != 0,
                    tx0 == old(self).tx@,
                    rx0 == old(self).rx@,
                    bus0 == old(self).bus_view(),
                decreases self.tx@.len(),
            {
                let v = self.tx.remove(0);
                let ghost prev = pl022_shift(tx0.take(k), bus0, loopback, self.bitmask);
                proof {
                    assert(tx0.take(k + 1).drop_last() =~= tx0.take(k));
                    assert(tx0.take(k + 1).last() == v);
                }
                let result: u32 = if loopback {
                    v as u32
                } else {
                    match &mut self.ssi_bus {
                        Some(bus) => bus.transfer(v as u32),
                        None => 0,
                    }
                };
                self.rx.push((result & self.bitmask) as u16);
                proof {
                    k = k + 1;
                    assert(self.tx@ =~= tx0.skip(k));
                    assert(self.rx@ =~= rx0 + pl022_shift(tx0.take(k), bus0, loopback, self.bitmask).0);
                }
            }
            proof {
                assert(k == xfer_count(self.cr1, tx0.len(), rx0.len()));
            }
        } else {
            proof {
                assert(tx0.take(0) =~= Seq::<u16>::empty());
                assert(tx0.skip(0) =~= tx0);
                assert(rx0 + Seq::<u16>::empty() =~= rx0);
            }
        }
        self.update();
        self.is & self.im != 0
    }

    /// A read of `offset`: the register value, and the interrupt level
    /// when the read changed it. Reading the data register pops the
    /// oldest received word and resumes shifting.
    pub fn read(&mut self, offset: u64, size: u32) -> (r: (u64, Option<bool>))
        requires
            old(self).wf(),
        ensures
            final(self).wf(),
            0xFE0 <= offset < 0x1000 ==> r == (PL022_ID@[(offset - 0xFE0) / 4] as u64, None::<bool>)
                && *final(self) == *old(self),
            offset == 0x08 && old(self).rx_view().len() == 0 ==> r == (0u64, None::<bool>) && *final(self)
                == *old(self),
            offset == 0x08 && old(self).rx_view().len() > 0 ==> ({
                let s = *old(self);
                let res = xfer_result(s.tx_view(), s.rx_view().drop_first(), s.bus_view(), s.cr1, s.bitmask);
                &&& r == (s.rx_view()[0] as u64, Some(final(self).is & final(self).im != 0))
                &&& final(self).tx_view() == res.0 && final(self).rx_view() == res.1 && final(self).bus_view() == res.2
                &&& final(self).sr == pl022_sr(res.0.len(), res.1.len())
                &&& final(self).is == pl022_is(res.0.len(), res.1.len())
                &&& final(self).cr0 == s.cr0 && final(self).cr1 == s.cr1 && final(self).bitmask == s.bitmask
                &&& final(self).cpsr == s.cpsr && final(self).im == s.im
            }),
            !(0xFE0 <= offset < 0x1000) && offset != 0x08 ==> *final(self) == *old(self) && r == (
                (if offset == 0x00 {
                    old(self).cr0 as u64
                } else if offset == 0x04 {
                    old(self).cr1 as u64
                } else if offset == 0x0C {
                    old(self).sr as u64
                } else if offset == 0x10 {
                    old(self).cpsr as u64
                } else if offset == 0x14 {
                    old(self).im as u64
                } else if offset == 0x18 {
                    old(self).is as u64
                } else if offset == 0x1C {
                    (old(self).im & old(self).is) as u64
                } else {
                    0u64
                }),
                None::<bool>,
            ),
    {
        if offset >= 0xFE0 && offset < 0x1000 {
            let idx = ((offset - 0xFE0) / 4) as usize;
            return (PL022_ID[idx] as u64, None);
        }
        if offset == 0x08 {
            if self.rx.len() > 0 {
                let v = self.rx.remove(0);
                let irq = self.xfer_and_update_irq();
                return (v as u64, Some(irq));
            }
            return (0, None);
        }
        let v: u64 = if offset == 0x00 {
            self.cr0 as u64
        } else if offset == 0x04 {
            self.cr1 as u64
        } else if offset == 0x0C {
            self.sr as u64
        } else if offset == 0x10 {
            self.cpsr as u64
        } else if offset == 0x14 {
            self.im as u64
        } else if offset == 0x18 {
            self.is as u64
        } else if offset == 0x1C {
            (self.im & self.is) as u64
        } else {
            0
        };
        (v, None)
    }

    /// A write of `val` to `offset`; gives the interrupt level when the
    /// write sets the line.
    pub fn write(&mut self, offset: u64, size: u32, val: u64) -> (r: Option<bool>)
        requires
            old(self).wf(),
        ensures
            final(self).wf(),
            ({
                let value = (val % 0x1_0000_0000) as u32;
                let s = *old(self);
                &&& offset == 0x00 ==> r is None && final(self).cr0 == value
                    && final(self).bitmask == ((1u32 << ((value & 0xF) + 1)) - 1) as u32
                    && final(self).tx_view() == s.tx_view() && final(self).rx_view() == s.rx_view()
                &&& offset == 0x04 ==> ({
                    let res = xfer_result(s.tx_view(), s.rx_view(), s.bus_view(), value, s.bitmask);
                    &&& final(self).cr1 == value && final(self).cr0 == s.cr0 && final(self).bitmask == s.bitmask
                    &&& final(self).tx_view() == res.0 && final(self).rx_view() == res.1 && final(self).bus_view() == res.2
                    &&& final(self).sr == pl022_sr(res.0.len(), res.1.len())
                    &&& final(self).is == pl022_is(res.0.len(), res.1.len())
                    &&& r == Some(final(self).is & s.im != 0)
                })
                &&& offset == 0x08 && s.tx_view().len() < 8 ==> ({
                    let res = xfer_result(s.tx_view().push((value & s.bitmask) as u16), s.rx_view(), s.bus_view(), s.cr1, s.bitmask);
                    &&& final(self).tx_view() == res.0 && final(self).rx_view() == res.1 && final(self).bus_view() == res.2
                    &&& final(self).sr == pl022_sr(res.0.len(), res.1.len())
                    &&& final(self).is == pl022_is(res.0.len(), res.1.len())
                    &&& final(self).cr0 == s.cr0 && final(self).cr1 == s.cr1 && final(self).bitmask == s.bitmask
                    &&& r == Some(final(self).is & s.im != 0)
                })
                &&& offset == 0x08 && s.tx_view().len() == 8 ==> r is None && *final(self) == s
                &&& offset == 0x10 ==> r == Some(s.is & s.im != 0) && final(self).cpsr == value & 0xFF
                    && final(self).tx_view() == s.tx_view() && final(self).rx_view() == s.rx_view()
                &&& offset == 0x14 ==> final(self).im == value && final(self).is == pl022_is(
                    s.tx_view().len(),
                    s.rx_view().len(),
                ) && final(self).sr == pl022_sr(s.tx_view().len(), s.rx_view().len()) && r == Some(
                    final(self).is & value != 0,
                )
                &&& offset == 0x20 ==> final(self).is == s.is & !(value & (PL022_INT_ROR | PL022_INT_RT))
                    && r == Some(final(self).is & s.im != 0)
                &&& offset == 0x24 ==> *final(self) == s && r == Some(s.is & s.im != 0)
                &&& !(offset == 0x00 || offset == 0x04 || offset == 0x08 || offset == 0x10 || offset
                    == 0x14 || offset == 0x20 || offset == 0x24) ==> r is None && *final(self) == s
            }),
    {
        let value = (val % 0x1_0000_0000) as u32;
        if offset == 0x00 {
            self.cr0 = value;
            assert(value & 0xF <= 15) by (bit_vector);
            let sh = (value & 0xF) + 1;
            assert(1u32 << sh >= 1) by (bit_vector)
                requires
                    sh <= 16,
            ;
            self.bitmask = (1u32 << sh) - 1;
            return None;
        }
        if offset == 0x04 {
            self.cr1 = value;
            return Some(self.xfer_and_update_irq());
        }
        if offset == 0x08 {
            if self.tx.len() < 8 {
                self.tx.push((value & self.bitmask) as u16);
                return Some(self.xfer_and_update_irq());
            }
            return None;
        }
        if offset == 0x10 {
            self.cpsr = value & 0xFF;
        } else if offset == 0x14 {
            self.im = value;
            self.update();
        } else if offset == 0x20 {
            let clear = value & (PL022_INT_ROR | PL022_INT_RT);
            self.is = self.is & !clear;
        } else if offset == 0x24 {
        } else {
            return None;
        }
        Some(self.is & self.im != 0)
    }
}

} // verus!
