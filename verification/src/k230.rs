//! The Kendryte K230 board: its memory map, interrupt numbers and the
//! regions modelled only as unimplemented devices.
use vstd::prelude::*;

verus! {

/// A region of the guest physical address space.
#[derive(Debug, Clone, Copy, PartialEq, Eq, Structural)]
pub struct MemMapEntry {
    pub base: u64,
    pub size: u64,
}

/// The regions of the K230 memory map.
#[derive(Debug, Clone, Copy, PartialEq, Eq, Structural)]
pub enum K230MemMap {
    Ddr,
    KpuL2Cache,
    Sram,
    KpuCfg,
    Fft,
    Ai2d,
    Gsdma,
    Dma,
    Gzip,
    NonAi2d,
    Isp,
    Dewarp,
    RxCsi,
    H264,
    Gpu2p5d,
    Vo,
    VoCfg,
    Engine3d,
    Pmu,
    Rtc,
    Cmu,
    Rmu,
    Boot,
    Pwr,
    Mailbox,
    Iomux,
    Timer,
    Wdt0,
    Wdt1,
    Ts,
    Hdi,
    Stc,
    Bootrom,
    Security,
    Noc,
    Uart0,
    Uart1,
    Uart2,
    Uart3,
    Uart4,
    I2c0,
    I2c1,
    I2c2,
    I2c3,
    I2c4,
    Pwm,
    Gpio0,
    Gpio1,
    Adc,
    Codec,
    I2s,
    Usb0,
    Usb1,
    Sd0,
    Sd1,
    Qspi0,
    Qspi1,
    Spi,
    HiSysCfg,
    DdrcCfg,
    Flash,
    Plic,
    Clint,
    Count,
}

/// The K230 memory map (the `Count` marker has an empty region).
pub open spec fn k230_region(r: K230MemMap) -> MemMapEntry {
    match r {
        K230MemMap::Ddr => MemMapEntry { base: 0x0000_0000, size: 0x8000_0000 },
        K230MemMap::KpuL2Cache => MemMapEntry { base: 0x8000_0000, size: 0x0020_0000 },
        K230MemMap::Sram => MemMapEntry { base: 0x8020_0000, size: 0x0020_0000 },
        K230MemMap::KpuCfg => MemMapEntry { base: 0x8040_0000, size: 0x0000_0800 },
        K230MemMap::Fft => MemMapEntry { base: 0x8040_0800, size: 0x0000_0400 },
        K230MemMap::Ai2d => MemMapEntry { base: 0x8040_0c00, size: 0x0000_0800 },
        K230MemMap::Gsdma => MemMapEntry { base: 0x8080_0000, size: 0x0000_4000 },
        K230MemMap::Dma => MemMapEntry { base: 0x8080_4000, size: 0x0000_4000 },
        K230MemMap::Gzip => MemMapEntry { base: 0x8080_8000, size: 0x0000_4000 },
        K230MemMap::NonAi2d => MemMapEntry { base: 0x8080_c000, size: 0x0000_4000 },
        K230MemMap::Isp => MemMapEntry { base: 0x9000_0000, size: 0x0000_8000 },
        K230MemMap::Dewarp => MemMapEntry { base: 0x9000_8000, size: 0x0000_1000 },
        K230MemMap::RxCsi => MemMapEntry { base: 0x9000_9000, size: 0x0000_2000 },
        K230MemMap::H264 => MemMapEntry { base: 0x9040_0000, size: 0x0001_0000 },
        K230MemMap::Gpu2p5d => MemMapEntry { base: 0x9080_0000, size: 0x0004_0000 },
        K230MemMap::Vo => MemMapEntry { base: 0x9084_0000, size: 0x0001_0000 },
        K230MemMap::VoCfg => MemMapEntry { base: 0x9085_0000, size: 0x0000_1000 },
        K230MemMap::Engine3d => MemMapEntry { base: 0x90a0_0000, size: 0x0000_0800 },
        K230MemMap::Pmu => MemMapEntry { base: 0x9100_0000, size: 0x0000_0c00 },
        K230MemMap::Rtc => MemMapEntry { base: 0x9100_0c00, size: 0x0000_0400 },
        K230MemMap::Cmu => MemMapEntry { base: 0x9110_0000, size: 0x0000_1000 },
        K230MemMap::Rmu => MemMapEntry { base: 0x9110_1000, size: 0x0000_1000 },
        K230MemMap::Boot => MemMapEntry { base: 0x9110_2000, size: 0x0000_1000 },
        K230MemMap::Pwr => MemMapEntry { base: 0x9110_3000, size: 0x0000_1000 },
        K230MemMap::Mailbox => MemMapEntry { base: 0x9110_4000, size: 0x0000_1000 },
        K230MemMap::Iomux => MemMapEntry { base: 0x9110_5000, size: 0x0000_0800 },
        K230MemMap::Timer => MemMapEntry { base: 0x9110_5800, size: 0x0000_0800 },
        K230MemMap::Wdt0 => MemMapEntry { base: 0x9110_6000, size: 0x0000_0800 },
        K230MemMap::Wdt1 => MemMapEntry { base: 0x9110_6800, size: 0x0000_0800 },
        K230MemMap::Ts => MemMapEntry { base: 0x9110_7000, size: 0x0000_0800 },
        K230MemMap::Hdi => MemMapEntry { base: 0x9110_7800, size: 0x0000_0800 },
        K230MemMap::Stc => MemMapEntry { base: 0x9110_8000, size: 0x0000_0800 },
        K230MemMap::Bootrom => MemMapEntry { base: 0x9120_0000, size: 0x0001_0000 },
        K230MemMap::Security => MemMapEntry { base: 0x9121_0000, size: 0x0000_8000 },
        K230MemMap::Noc => MemMapEntry { base: 0x9130_0000, size: 0x0000_4000 },
        K230MemMap::Uart0 => MemMapEntry { base: 0x9140_0000, size: 0x0000_1000 },
        K230MemMap::Uart1 => MemMapEntry { base: 0x9140_1000, size: 0x0000_1000 },
        K230MemMap::Uart2 => MemMapEntry { base: 0x9140_2000, size: 0x0000_1000 },
        K230MemMap::Uart3 => MemMapEntry { base: 0x9140_3000, size: 0x0000_1000 },
        K230MemMap::Uart4 => MemMapEntry { base: 0x9140_4000, size: 0x0000_1000 },
        K230MemMap::I2c0 => MemMapEntry { base: 0x9140_5000, size: 0x0000_1000 },
        K230MemMap::I2c1 => MemMapEntry { base: 0x9140_6000, size: 0x0000_1000 },
        K230MemMap::I2c2 => MemMapEntry { base: 0x9140_7000, size: 0x0000_1000 },
        K230MemMap::I2c3 => MemMapEntry { base: 0x9140_8000, size: 0x0000_1000 },
        K230MemMap::I2c4 => MemMapEntry { base: 0x9140_9000, size: 0x0000_1000 },
        K230MemMap::Pwm => MemMapEntry { base: 0x9140_a000, size: 0x0000_1000 },
        K230MemMap::Gpio0 => MemMapEntry { base: 0x9140_b000, size: 0x0000_1000 },
        K230MemMap::Gpio1 => MemMapEntry { base: 0x9140_c000, size: 0x0000_1000 },
        K230MemMap::Adc => MemMapEntry { base: 0x9140_d000, size: 0x0000_1000 },
        K230MemMap::Codec => MemMapEntry { base: 0x9140_e000, size: 0x0000_1000 },
        K230MemMap::I2s => MemMapEntry { base: 0x9140_f000, size: 0x0000_1000 },
        K230MemMap::Usb0 => MemMapEntry { base: 0x9150_0000, size: 0x0001_0000 },
        K230MemMap::Usb1 => MemMapEntry { base: 0x9154_0000, size: 0x0001_0000 },
        K230MemMap::Sd0 => MemMapEntry { base: 0x9158_0000, size: 0x0000_1000 },
        K230MemMap::Sd1 => MemMapEntry { base: 0x9158_1000, size: 0x0000_1000 },
        K230MemMap::Qspi0 => MemMapEntry { base: 0x9158_2000, size: 0x0000_1000 },
        K230MemMap::Qspi1 => MemMapEntry { base: 0x9158_3000, size: 0x0000_1000 },
        K230MemMap::Spi => MemMapEntry { base: 0x9158_4000, size: 0x0000_1000 },
        K230MemMap::HiSysCfg => MemMapEntry { base: 0x9158_5000, size: 0x0000_0400 },
        K230MemMap::DdrcCfg => MemMapEntry { base: 0x9800_0000, size: 0x0200_0000 },
        K230MemMap::Flash => MemMapEntry { base: 0xc000_0000, size: 0x0800_0000 },
        K230MemMap::Plic => MemMapEntry { base: 0x000f_0000_0000, size: 0x0040_0000 },
        K230MemMap::Clint => MemMapEntry { base: 0x000f_0400_0000, size: 0x0040_0000 },
        K230MemMap::Count => MemMapEntry { base: 0, size: 0 },
    }
}

/// The machine runs only with exactly the DDR's size of RAM: `Ok`, or
/// the size it needs.
pub fn check_k230_ram_size(ram_size: u64) -> (r: Result<(), u64>)
    ensures
        ram_size == k230_region(K230MemMap::Ddr).size ==> r is Ok,
        ram_size != k230_region(K230MemMap::Ddr).size ==> r == Err::<(), u64>(k230_region(K230MemMap::Ddr).size),
{
    let ddr = k230_memmap(K230MemMap::Ddr);
    if ram_size != ddr.size {
        return Err(ddr.size);
    }
    Ok(())
}

/// The base and size of region `r`.
pub fn k230_memmap(r: K230MemMap) -> (e: MemMapEntry)
    ensures
        e == k230_region(r),
{
    match r {
        K230MemMap::Ddr => MemMapEntry { base: 0x0000_0000, size: 0x8000_0000 },
        K230MemMap::KpuL2Cache => MemMapEntry { base: 0x8000_0000, size: 0x0020_0000 },
        K230MemMap::Sram => MemMapEntry { base: 0x8020_0000, size: 0x0020_0000 },
        K230MemMap::KpuCfg => MemMapEntry { base: 0x8040_0000, size: 0x0000_0800 },
        K230MemMap::Fft => MemMapEntry { base: 0x8040_0800, size: 0x0000_0400 },
        K230MemMap::Ai2d => MemMapEntry { base: 0x8040_0c00, size: 0x0000_0800 },
        K230MemMap::Gsdma => MemMapEntry { base: 0x8080_0000, size: 0x0000_4000 },
        K230MemMap::Dma => MemMapEntry { base: 0x8080_4000, size: 0x0000_4000 },
        K230MemMap::Gzip => MemMapEntry { base: 0x8080_8000, size: 0x0000_4000 },
        K230MemMap::NonAi2d => MemMapEntry { base: 0x8080_c000, size: 0x0000_4000 },
        K230MemMap::Isp => MemMapEntry { base: 0x9000_0000, size: 0x0000_8000 },
        K230MemMap::Dewarp => MemMapEntry { base: 0x9000_8000, size: 0x0000_1000 },
        K230MemMap::RxCsi => MemMapEntry { base: 0x9000_9000, size: 0x0000_2000 },
        K230MemMap::H264 => MemMapEntry { base: 0x9040_0000, size: 0x0001_0000 },
        K230MemMap::Gpu2p5d => MemMapEntry { base: 0x9080_0000, size: 0x0004_0000 },
        K230MemMap::Vo => MemMapEntry { base: 0x9084_0000, size: 0x0001_0000 },
        K230MemMap::VoCfg => MemMapEntry { base: 0x9085_0000, size: 0x0000_1000 },
        K230MemMap::Engine3d => MemMapEntry { base: 0x90a0_0000, size: 0x0000_0800 },
        K230MemMap::Pmu => MemMapEntry { base: 0x9100_0000, size: 0x0000_0c00 },
        K230MemMap::Rtc => MemMapEntry { base: 0x9100_0c00, size: 0x0000_0400 },
        K230MemMap::Cmu => MemMapEntry { base: 0x9110_0000, size: 0x0000_1000 },
        K230MemMap::Rmu => MemMapEntry { base: 0x9110_1000, size: 0x0000_1000 },
        K230MemMap::Boot => MemMapEntry { base: 0x9110_2000, size: 0x0000_1000 },
        K230MemMap::Pwr => MemMapEntry { base: 0x9110_3000, size: 0x0000_1000 },
        K230MemMap::Mailbox => MemMapEntry { base: 0x9110_4000, size: 0x0000_1000 },
        K230MemMap::Iomux => MemMapEntry { base: 0x9110_5000, size: 0x0000_0800 },
        K230MemMap::Timer => MemMapEntry { base: 0x9110_5800, size: 0x0000_0800 },
        K230MemMap::Wdt0 => MemMapEntry { base: 0x9110_6000, size: 0x0000_0800 },
        K230MemMap::Wdt1 => MemMapEntry { base: 0x9110_6800, size: 0x0000_0800 },
        K230MemMap::Ts => MemMapEntry { base: 0x9110_7000, size: 0x0000_0800 },
        K230MemMap::Hdi => MemMapEntry { base: 0x9110_7800, size: 0x0000_0800 },
        K230MemMap::Stc => MemMapEntry { base: 0x9110_8000, size: 0x0000_0800 },
        K230MemMap::Bootrom => MemMapEntry { base: 0x9120_0000, size: 0x0001_0000 },
        K230MemMap::Security => MemMapEntry { base: 0x9121_0000, size: 0x0000_8000 },
        K230MemMap::Noc => MemMapEntry { base: 0x9130_0000, size: 0x0000_4000 },
        K230MemMap::Uart0 => MemMapEntry { base: 0x9140_0000, size: 0x0000_1000 },
        K230MemMap::Uart1 => MemMapEntry { base: 0x9140_1000, size: 0x0000_1000 },
        K230MemMap::Uart2 => MemMapEntry { base: 0x9140_2000, size: 0x0000_1000 },
        K230MemMap::Uart3 => MemMapEntry { base: 0x9140_3000, size: 0x0000_1000 },
        K230MemMap::Uart4 => MemMapEntry { base: 0x9140_4000, size: 0x0000_1000 },
        K230MemMap::I2c0 => MemMapEntry { base: 0x9140_5000, size: 0x0000_1000 },
        K230MemMap::I2c1 => MemMapEntry { base: 0x9140_6000, size: 0x0000_1000 },
        K230MemMap::I2c2 => MemMapEntry { base: 0x9140_7000, size: 0x0000_1000 },
        K230MemMap::I2c3 => MemMapEntry { base: 0x9140_8000, size: 0x0000_1000 },
        K230MemMap::I2c4 => MemMapEntry { base: 0x9140_9000, size: 0x0000_1000 },
        K230MemMap::Pwm => MemMapEntry { base: 0x9140_a000, size: 0x0000_1000 },
        K230MemMap::Gpio0 => MemMapEntry { base: 0x9140_b000, size: 0x0000_1000 },
        K230MemMap::Gpio1 => MemMapEntry { base: 0x9140_c000, size: 0x0000_1000 },
        K230MemMap::Adc => MemMapEntry { base: 0x9140_d000, size: 0x0000_1000 },
        K230MemMap::Codec => MemMapEntry { base: 0x9140_e000, size: 0x0000_1000 },
        K230MemMap::I2s => MemMapEntry { base: 0x9140_f000, size: 0x0000_1000 },
        K230MemMap::Usb0 => MemMapEntry { base: 0x9150_0000, size: 0x0001_0000 },
        K230MemMap::Usb1 => MemMapEntry { base: 0x9154_0000, size: 0x0001_0000 },
        K230MemMap::Sd0 => MemMapEntry { base: 0x9158_0000, size: 0x0000_1000 },
        K230MemMap::Sd1 => MemMapEntry { base: 0x9158_1000, size: 0x0000_1000 },
        K230MemMap::Qspi0 => MemMapEntry { base: 0x9158_2000, size: 0x0000_1000 },
        K230MemMap::Qspi1 => MemMapEntry { base: 0x9158_3000, size: 0x0000_1000 },
        K230MemMap::Spi => MemMapEntry { base: 0x9158_4000, size: 0x0000_1000 },
        K230MemMap::HiSysCfg => MemMapEntry { base: 0x9158_5000, size: 0x0000_0400 },
        K230MemMap::DdrcCfg => MemMapEntry { base: 0x9800_0000, size: 0x0200_0000 },
        K230MemMap::Flash => MemMapEntry { base: 0xc000_0000, size: 0x0800_0000 },
        K230MemMap::Plic => MemMapEntry { base: 0x000f_0000_0000, size: 0x0040_0000 },
        K230MemMap::Clint => MemMapEntry { base: 0x000f_0400_0000, size: 0x0040_0000 },
        K230MemMap::Count => MemMapEntry { base: 0, size: 0 },
    }
}

/// The regions modelled as unimplemented devices, with their names, in
/// mapping order.
pub open spec fn k230_unimp_regions() -> Seq<(K230MemMap, &'static str)> {
    seq![
        (K230MemMap::KpuL2Cache, "kpu.l2-cache"),
        (K230MemMap::KpuCfg, "kpu_cfg"),
        (K230MemMap::Fft, "fft"),
        (K230MemMap::Ai2d, "2d-engine.ai"),
        (K230MemMap::NonAi2d, "2d-engine.non-ai"),
        (K230MemMap::Isp, "isp"),
        (K230MemMap::Dewarp, "dewarp"),
        (K230MemMap::RxCsi, "rx-csi"),
        (K230MemMap::H264, "vpu"),
        (K230MemMap::Gpu2p5d, "gpu"),
        (K230MemMap::Vo, "vo"),
        (K230MemMap::VoCfg, "vo_cfg"),
        (K230MemMap::Engine3d, "3d-engine"),
        (K230MemMap::Pmu, "pmu"),
        (K230MemMap::Rtc, "rtc"),
        (K230MemMap::Cmu, "cmu"),
        (K230MemMap::Rmu, "rmu"),
        (K230MemMap::Boot, "boot"),
        (K230MemMap::Pwr, "pwr"),
        (K230MemMap::Mailbox, "ipcm"),
        (K230MemMap::Iomux, "iomux"),
        (K230MemMap::Timer, "timer"),
        (K230MemMap::Ts, "ts"),
        (K230MemMap::Hdi, "hdi"),
        (K230MemMap::Stc, "stc"),
        (K230MemMap::Noc, "noc"),
        (K230MemMap::I2c0, "i2c0"),
        (K230MemMap::I2c1, "i2c1"),
        (K230MemMap::I2c2, "i2c2"),
        (K230MemMap::I2c3, "i2c3"),
        (K230MemMap::I2c4, "i2c4"),
        (K230MemMap::Pwm, "pwm"),
        (K230MemMap::Gpio0, "gpio0"),
        (K230MemMap::Gpio1, "gpio1"),
        (K230MemMap::Adc, "adc"),
        (K230MemMap::Codec, "codec"),
        (K230MemMap::I2s, "i2s"),
        (K230MemMap::Usb0, "usb0"),
        (K230MemMap::Usb1, "usb1"),
        (K230MemMap::Qspi0, "qspi0"),
        (K230MemMap::Qspi1, "qspi1"),
        (K230MemMap::Spi, "spi"),
        (K230MemMap::HiSysCfg, "hi_sys_cfg"),
        (K230MemMap::DdrcCfg, "ddrc_cfg"),
        (K230MemMap::Flash, "flash"),
    ]
}

/// The regions modelled as unimplemented devices, with their names, in
/// mapping order.
pub fn k230_unimp_specs() -> (r: Vec<(K230MemMap, &'static str)>)
    ensures
        r@ == k230_unimp_regions(),
{
    let mut r: Vec<(K230MemMap, &'static str)> = Vec::new();
    r.push((K230MemMap::KpuL2Cache, "kpu.l2-cache"));
    r.push((K230MemMap::KpuCfg, "kpu_cfg"));
    r.push((K230MemMap::Fft, "fft"));
    r.push((K230MemMap::Ai2d, "2d-engine.ai"));
    r.push((K230MemMap::NonAi2d, "2d-engine.non-ai"));
    r.push((K230MemMap::Isp, "isp"));
    r.push((K230MemMap::Dewarp, "dewarp"));
    r.push((K230MemMap::RxCsi, "rx-csi"));
    r.push((K230MemMap::H264, "vpu"));
    r.push((K230MemMap::Gpu2p5d, "gpu"));
    r.push((K230MemMap::Vo, "vo"));
    r.push((K230MemMap::VoCfg, "vo_cfg"));
    r.push((K230MemMap::Engine3d, "3d-engine"));
    r.push((K230MemMap::Pmu, "pmu"));
    r.push((K230MemMap::Rtc, "rtc"));
    r.push((K230MemMap::Cmu, "cmu"));
    r.push((K230MemMap::Rmu, "rmu"));
    r.push((K230MemMap::Boot, "boot"));
    r.push((K230MemMap::Pwr, "pwr"));
    r.push((K230MemMap::Mailbox, "ipcm"));
    r.push((K230MemMap::Iomux, "iomux"));
    r.push((K230MemMap::Timer, "timer"));
    r.push((K230MemMap::Ts, "ts"));
    r.push((K230MemMap::Hdi, "hdi"));
    r.push((K230MemMap::Stc, "stc"));
    r.push((K230MemMap::Noc, "noc"));
    r.push((K230MemMap::I2c0, "i2c0"));
    r.push((K230MemMap::I2c1, "i2c1"));
    r.push((K230MemMap::I2c2, "i2c2"));
    r.push((K230MemMap::I2c3, "i2c3"));
    r.push((K230MemMap::I2c4, "i2c4"));
    r.push((K230MemMap::Pwm, "pwm"));
    r.push((K230MemMap::Gpio0, "gpio0"));
    r.push((K230MemMap::Gpio1, "gpio1"));
    r.push((K230MemMap::Adc, "adc"));
    r.push((K230MemMap::Codec, "codec"));
    r.push((K230MemMap::I2s, "i2s"));
    r.push((K230MemMap::Usb0, "usb0"));
    r.push((K230MemMap::Usb1, "usb1"));
    r.push((K230MemMap::Qspi0, "qspi0"));
    r.push((K230MemMap::Qspi1, "qspi1"));
    r.push((K230MemMap::Spi, "spi"));
    r.push((K230MemMap::HiSysCfg, "hi_sys_cfg"));
    r.push((K230MemMap::DdrcCfg, "ddrc_cfg"));
    r.push((K230MemMap::Flash, "flash"));
    proof {
        assert(r@ =~= k230_unimp_regions());
    }
    r
}

pub const K230_PLIC_NUM_SOURCES: u32 = 208;
pub const K230_PLIC_NUM_PRIORITIES: u32 = 7;
pub const K230_UART_COUNT: usize = 5;

/// Interrupt numbers of the K230 devices at the PLIC.
pub struct K230IrqMap;

impl K230IrqMap {
    pub const UART0: u32 = 16;
    pub const UART1: u32 = 17;
    pub const UART2: u32 = 18;
    pub const UART3: u32 = 19;
    pub const UART4: u32 = 20;
    pub const WDT0: u32 = 107;
    pub const WDT1: u32 = 108;
}

/// One of the two watchdogs.
#[derive(Debug, Clone, Copy, PartialEq, Eq, Structural)]
pub enum K230WdtIndex {
    Wdt0,
    Wdt1,
}

impl K230WdtIndex {
    /// The position of the watchdog among the board's watchdogs.
    pub fn index(self) -> (r: usize)
        ensures
            r == (if self == K230WdtIndex::Wdt0 { 0usize } else { 1usize }),
    {
        match self {
            K230WdtIndex::Wdt0 => 0,
            K230WdtIndex::Wdt1 => 1,
        }
    }

    /// The memory-map region of the watchdog.
    pub fn region(self) -> (r: K230MemMap)
        ensures
            r == (if self == K230WdtIndex::Wdt0 { K230MemMap::Wdt0 } else { K230MemMap::Wdt1 }),
    {
        match self {
            K230WdtIndex::Wdt0 => K230MemMap::Wdt0,
            K230WdtIndex::Wdt1 => K230MemMap::Wdt1,
        }
    }

    /// The PLIC interrupt of the watchdog.
    pub fn irq(self) -> (r: u32)
        ensures
            r == (if self == K230WdtIndex::Wdt0 { 107u32 } else { 108u32 }),
    {
        match self {
            K230WdtIndex::Wdt0 => K230IrqMap::WDT0,
            K230WdtIndex::Wdt1 => K230IrqMap::WDT1,
        }
    }
}

/// The PLIC interrupt of UART `index`, if the board has it.
pub fn k230_uart_irq(index: usize) -> (r: Option<u32>)
    ensures
        index < 5 ==> r == Some((16 + index) as u32),
        index >= 5 ==> r is None,
{
    if index < K230_UART_COUNT {
        Some(K230IrqMap::UART0 + index as u32)
    } else {
        None
    }
}

/// The memory-map region of UART `index`, if the board has it.
pub fn k230_uart_region(index: usize) -> (r: Option<K230MemMap>)
    ensures
        index == 0 ==> r == Some(K230MemMap::Uart0),
        index == 1 ==> r == Some(K230MemMap::Uart1),
        index == 2 ==> r == Some(K230MemMap::Uart2),
        index == 3 ==> r == Some(K230MemMap::Uart3),
        index == 4 ==> r == Some(K230MemMap::Uart4),
        index >= 5 ==> r is None,
{
    if index == 0 {
        Some(K230MemMap::Uart0)
    } else if index == 1 {
        Some(K230MemMap::Uart1)
    } else if index == 2 {
        Some(K230MemMap::Uart2)
    } else if index == 3 {
        Some(K230MemMap::Uart3)
    } else if index == 4 {
        Some(K230MemMap::Uart4)
    } else {
        None
    }
}

pub const IRQ_SSI: u32 = 1;
pub const IRQ_MSI: u32 = 3;
pub const IRQ_STI: u32 = 5;
pub const IRQ_MTI: u32 = 7;
pub const IRQ_SEI: u32 = 9;
pub const IRQ_MEI: u32 = 11;

/// The PLIC context driving hart `hart`'s machine (`supervisor` false)
/// or supervisor external interrupt.
pub fn plic_context(hart: u32, supervisor: bool) -> (r: u32)
    requires
        hart < 0x8000_0000,
    ensures
        r == 2 * hart + (if supervisor { 1int } else { 0int }),
{
    if supervisor {
        2 * hart + 1
    } else {
        2 * hart
    }
}

/// The pending-interrupt word after an interrupt line `irq` of a hart is
/// raised or lowered.
pub fn mip_after_irq(mip: u64, irq: u32, level: bool) -> (r: u64)
    requires
        irq < 64,
    ensures
        level ==> r == mip | (1u64 << irq),
        !level ==> r == mip & !(1u64 << irq),
{
    let bit = 1u64 << irq;
    if level {
        mip | bit
    } else {
        mip & !bit
    }
}

} // verus!
