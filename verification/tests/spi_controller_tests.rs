use machina_hw::pl022::{Pl022, PL022_CR1_LBM, PL022_CR1_SSE, PL022_SR_RNE, PL022_SR_TFE};
use machina_hw::sifive_spi::{SiFiveSpi, RXDATA_EMPTY};
use machina_hw::m25p80::M25p80;
use machina_hw::spi::{SpiBus, SpiCsPolarity, SpiDevState, SpiSlave};
use machina_hw::storage::{FlashMedia, MemBackend};

/// A slave that answers each word with its complement and counts words.
struct Inverter {
    cs: u8,
    seen: u32,
}

/// What the bus sees of an [`Inverter`].
#[derive(Clone, Copy)]
struct InverterState {
    cs: u8,
    seen: u32,
}

impl SpiDevState for InverterState {
    fn reply(&self, val: u32) -> u32 {
        !val
    }
    fn after_transfer(&self, _val: u32) -> Self {
        InverterState { cs: self.cs, seen: self.seen + 1 }
    }
    fn after_cs(&self, _cs: bool) -> Self {
        *self
    }
    fn polarity(&self) -> SpiCsPolarity {
        SpiCsPolarity::Any
    }
    fn index(&self) -> u8 {
        self.cs
    }
}

impl SpiSlave for Inverter {
    type State = InverterState;
    fn state(&self) -> InverterState {
        InverterState { cs: self.cs, seen: self.seen }
    }
    fn transfer(&mut self, val: u32) -> u32 {
        self.seen += 1;
        !val
    }
    fn set_cs(&mut self, _cs: bool) {}
    fn cs_polarity(&self) -> SpiCsPolarity {
        SpiCsPolarity::Any
    }
    fn cs_index(&self) -> u8 {
        self.cs
    }
}

#[test]
fn pl022_loopback_round_trip() {
    let mut p: Pl022<Inverter> = Pl022::new();
    assert_eq!(p.write(0x00, 4, 7), None);
    assert_eq!(p.bitmask, 0xff);
    assert!(p.write(0x04, 4, (PL022_CR1_SSE | PL022_CR1_LBM) as u64).is_some());
    assert!(p.write(0x08, 4, 0x1a5).is_some());
    let (sr, _) = p.read(0x0c, 4);
    assert_eq!(sr as u32 & (PL022_SR_RNE | PL022_SR_TFE), PL022_SR_RNE | PL022_SR_TFE);
    let (v, irq) = p.read(0x08, 4);
    assert_eq!(v, 0xa5);
    assert!(irq.is_some());
    assert_eq!(p.read(0x08, 4), (0, None));
    assert_eq!(p.read(0xfe0, 4), (0x22, None));
    assert_eq!(p.read(0xffc, 4), (0xb1, None));
}

#[test]
fn pl022_shifts_through_bus_only_when_enabled() {
    let mut bus = SpiBus::new();
    assert!(bus.attach(Inverter { cs: 0, seen: 0 }).is_ok());
    let mut p = Pl022::new();
    p.connect_ssi_bus(bus);
    p.write(0x00, 4, 15);
    p.write(0x08, 4, 0x1234);
    let (sr, _) = p.read(0x0c, 4);
    assert_eq!(sr as u32 & PL022_SR_TFE, 0, "word waits while the port is disabled");
    p.write(0x04, 4, PL022_CR1_SSE as u64);
    let (v, _) = p.read(0x08, 4);
    assert_eq!(v, 0xedcb);
}

#[test]
fn sifive_spi_without_bus_reads_pull_up() {
    let mut s: SiFiveSpi<Inverter> = SiFiveSpi::new();
    assert_eq!(s.read(0x14, 4), (1, None), "CSDEF resets to one line");
    assert_eq!(s.read(0x4c, 4), (RXDATA_EMPTY as u64, None));
    let eff = s.write(0x48, 4, 0x5a);
    assert!(eff.irq.is_some());
    let (v, irq) = s.read(0x4c, 4);
    assert_eq!(v, 0xff);
    assert!(irq.is_some());
    assert_eq!(s.read(0x08, 4), (0, None));
    assert!(s.write(0x10, 4, 5).cs_levels.is_none(), "CS id past the lines is ignored");
    let eff = s.write(0x18, 4, 2);
    assert_eq!(eff.cs_levels, Some(vec![true]));
}

#[test]
fn sifive_spi_transfers_on_bus() {
    let mut bus = SpiBus::new();
    assert!(bus.attach(Inverter { cs: 0, seen: 0 }).is_ok());
    let mut s = SiFiveSpi::new();
    s.connect_ssi_bus(bus);
    s.write(0x48, 4, 0x0f);
    assert_eq!(s.read(0x4c, 4).0, 0xf0);
}

fn spi_cycle(m: &mut M25p80<MemBackend>, bytes: &[u8]) -> Vec<u32> {
    m.set_cs(false);
    let out = bytes.iter().map(|b| m.transfer(*b as u32)).collect();
    m.set_cs(true);
    out
}

#[test]
fn m25p80_reads_jedec_id_and_status() {
    let flash = FlashMedia::new(MemBackend::new(vec![0xff; 0x10000], false), 0x1000);
    let mut m = M25p80::new(0, flash, [0xef, 0x40, 0x18]);
    assert_eq!(spi_cycle(&mut m, &[0x9f, 0, 0, 0]), vec![0, 0xef, 0x40, 0x18]);
    assert_eq!(spi_cycle(&mut m, &[0x05, 0]), vec![0, 0x00]);
    spi_cycle(&mut m, &[0x06]);
    assert_eq!(spi_cycle(&mut m, &[0x05, 0]), vec![0, 0x02]);
    // Deselected, the device answers with the bus pull-up.
    assert_eq!(m.transfer(0x9f), 0xff);
}

#[test]
fn m25p80_programs_reads_back_and_erases() {
    let flash = FlashMedia::new(MemBackend::new(vec![0xff; 0x10000], false), 0x1000);
    let mut m = M25p80::new(0, flash, [0xef, 0x40, 0x18]);
    // Program without write enable does nothing.
    spi_cycle(&mut m, &[0x02, 0x00, 0x00, 0x10, 0x12]);
    assert_eq!(spi_cycle(&mut m, &[0x03, 0x00, 0x00, 0x10, 0]), vec![0, 0, 0, 0, 0xff]);
    spi_cycle(&mut m, &[0x06]);
    spi_cycle(&mut m, &[0x02, 0x00, 0x00, 0x10, 0x12, 0x34]);
    assert_eq!(spi_cycle(&mut m, &[0x03, 0x00, 0x00, 0x10, 0, 0, 0]), vec![0, 0, 0, 0, 0x12, 0x34, 0xff]);
    // Sector erase of the 4 KiB block holding the address.
    spi_cycle(&mut m, &[0x06]);
    spi_cycle(&mut m, &[0x20, 0x00, 0x00, 0x11]);
    assert_eq!(spi_cycle(&mut m, &[0x03, 0x00, 0x00, 0x10, 0, 0]), vec![0, 0, 0, 0, 0xff, 0xff]);
}

#[test]
fn m25p80_on_the_spi_bus() {
    let flash = FlashMedia::new(MemBackend::new(vec![0xa5; 0x1000], false), 0x1000);
    let mut bus: SpiBus<M25p80<MemBackend>> = SpiBus::new();
    assert!(bus.attach(M25p80::new(1, flash, [0xef, 0x40, 0x18])).is_ok());
    bus.set_cs(1, false);
    assert_eq!(bus.transfer(0x03), 0);
    bus.transfer(0);
    bus.transfer(0);
    bus.transfer(0);
    assert_eq!(bus.transfer(0), 0xa5);
    bus.set_cs(1, true);
    assert_eq!(bus.transfer(0x03), 0xff);
}
