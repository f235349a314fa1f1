use machina_hw::sd::card::{SdCardConfig, SdMemoryCard};
use machina_hw::sd::{SdBus, SdBusHost};
use machina_hw::spi::{SpiBus, SpiSlave};
use machina_hw::spi_device::SpiDevice;
use machina_hw::ssi_sd::SsiSd;
use machina_hw::m25p80::M25p80;
use machina_hw::storage::{BlockMedia, FlashMedia, MemBackend};

struct NoHost;

impl SdBusHost for NoHost {
    fn set_inserted(&mut self, _inserted: bool) {}
    fn set_readonly(&mut self, _readonly: bool) {}
}

fn card_bridge(data: Vec<u8>) -> SsiSd<MemBackend, NoHost> {
    let media = BlockMedia::new(MemBackend::new(data, false), 512);
    let card = SdMemoryCard::new(media, SdCardConfig::default()).unwrap();
    let mut bus: SdBus<SdMemoryCard<MemBackend>, NoHost> = SdBus::new();
    bus.insert_card(card);
    let mut sd = SsiSd::new(0);
    sd.connect_sd_bus(bus);
    sd.set_cs(false);
    sd
}

/// Send one command frame and return the `n` bytes that follow the
/// one-byte delay.
fn command(sd: &mut SsiSd<MemBackend, NoHost>, cmd: u8, arg: u32, n: usize) -> Vec<u32> {
    let a = arg.to_be_bytes();
    for b in [0x40 | cmd, a[0], a[1], a[2], a[3], 0x95] {
        assert_eq!(sd.transfer(b as u32), 0xff);
    }
    assert_eq!(sd.transfer(0xff), 0xff);
    (0..n).map(|_| sd.transfer(0xff)).collect()
}

fn to_transfer_state(sd: &mut SsiSd<MemBackend, NoHost>) {
    assert_eq!(command(sd, 0, 0, 1), vec![0]);
    assert_eq!(command(sd, 55, 0, 4), vec![0, 0, 0x01, 0x20]);
    assert_eq!(command(sd, 41, 0x00ff_8000, 4), vec![0x80, 0xff, 0xff, 0x00]);
    assert_eq!(command(sd, 2, 0, 16).len(), 16);
    assert_eq!(command(sd, 3, 0, 4), vec![0, 1, 1, 0]);
    assert_eq!(command(sd, 7, 0x0001_0000, 4), vec![0, 0, 7, 0]);
}

#[test]
fn ssi_sd_answers_commands_after_one_byte() {
    let mut sd = card_bridge(vec![0; 4096]);
    assert_eq!(command(&mut sd, 0, 0, 1), vec![0]);
    assert_eq!(command(&mut sd, 8, 0x1aa, 4), vec![0, 0, 0x01, 0xaa]);
    // Nothing pending and no command start: the line idles high.
    assert_eq!(sd.transfer(0xff), 0xff);
    // Deselected, the bridge answers with the pull-up.
    sd.set_cs(true);
    assert_eq!(sd.transfer(0x40), 0xff);
}

#[test]
fn ssi_sd_without_a_bus_answers_pull_up() {
    let mut sd: SsiSd<MemBackend, NoHost> = SsiSd::new(2);
    assert_eq!(sd.cs_index(), 2);
    sd.set_cs(false);
    for b in [0x40u32, 0, 0, 0, 0, 0x95] {
        assert_eq!(sd.transfer(b), 0xff);
    }
    assert_eq!(sd.transfer(0xff), 0xff);
    assert_eq!(sd.transfer(0xff), 0xff);
}

#[test]
fn ssi_sd_reads_a_block() {
    let data: Vec<u8> = (0..4096u32).map(|i| (i % 251) as u8).collect();
    let mut sd = card_bridge(data.clone());
    to_transfer_state(&mut sd);
    let out = command(&mut sd, 17, 512, 4 + 1 + 512 + 2);
    assert_eq!(&out[..4], &[0, 0, 0x09, 0]);
    assert_eq!(out[4], 0xfe);
    let block: Vec<u32> = data[512..1024].iter().map(|b| *b as u32).collect();
    assert_eq!(&out[5..517], &block[..]);
    assert_eq!(&out[517..], &[0xff, 0xff]);
}

#[test]
fn ssi_sd_writes_a_block_and_reads_it_back() {
    let mut sd = card_bridge(vec![0; 4096]);
    to_transfer_state(&mut sd);
    assert_eq!(command(&mut sd, 24, 1024, 4), vec![0, 0, 0x09, 0]);
    assert_eq!(sd.transfer(0xfe), 0xff);
    for i in 0..512u32 {
        assert_eq!(sd.transfer(i % 7), 0xff);
    }
    assert_eq!(sd.transfer(0), 0xff);
    assert_eq!(sd.transfer(0), 0x05);
    let out = command(&mut sd, 17, 1024, 4 + 1 + 512 + 2);
    let expected: Vec<u32> = (0..512u32).map(|i| i % 7).collect();
    assert_eq!(&out[5..517], &expected[..]);
}

#[test]
fn ssi_sd_reset_drops_pending_bytes() {
    let mut sd = card_bridge(vec![0; 4096]);
    for b in [0x48u32, 0, 0, 0x01, 0xaa, 0x87] {
        sd.transfer(b);
    }
    sd.reset_runtime();
    sd.set_cs(false);
    // The CMD8 answer that was due is gone.
    assert_eq!(sd.transfer(0xff), 0xff);
    assert_eq!(sd.transfer(0xff), 0xff);
}

#[test]
fn flash_and_sd_card_share_one_bus() {
    let flash = FlashMedia::new(MemBackend::new(vec![0xa5; 0x1000], false), 0x1000);
    let mut bus: SpiBus<SpiDevice<MemBackend, MemBackend, NoHost>> = SpiBus::new();
    assert!(bus.attach(SpiDevice::Flash(M25p80::new(1, flash, [0xef, 0x40, 0x18]))).is_ok());
    let mut sd = card_bridge(vec![0; 4096]);
    sd.set_cs(true);
    assert!(bus.attach(SpiDevice::Sd(sd)).is_ok());
    // The flash answers a read on its chip select.
    bus.set_cs(1, false);
    assert_eq!(bus.transfer(0x03), 0);
    for _ in 0..3 {
        bus.transfer(0);
    }
    assert_eq!(bus.transfer(0), 0xa5);
    bus.set_cs(1, true);
    // The card answers CMD0 on its own.
    bus.set_cs(0, false);
    for b in [0x40u32, 0, 0, 0, 0, 0x95] {
        assert_eq!(bus.transfer(b), 0xff);
    }
    assert_eq!(bus.transfer(0xff), 0xff);
    assert_eq!(bus.transfer(0xff), 0);
}
