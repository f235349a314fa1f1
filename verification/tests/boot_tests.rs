use machina_hw::k230::check_k230_ram_size;
use machina_hw::loongarch_boot::check_fw_cfg_kernel;
use machina_hw::loongarch_virt::{check_virt_options, VirtOptionsError};
use machina_hw::loongarch_boot::{
    GuestRange, LowRamLayout, RangeLabel, BootError, KernelLoadKind, KERNEL_ENTRY_DEFAULT,
    VIRT_RAM_BASE,
};
use machina_hw::loongarch_virt::{
    build_fdt, direct_kernel_boot, plan_kernel, write_boot_parameters, VirtFdtLayout,
    VirtMachineConfig,
};
use machina_hw::k230_boot::{
    align_up_2m, align_up_4k, check_boot_inputs, k230_check_loader, k230_initrd_range,
    k230_kernel_load_addr, k230_place_dtb, K230BootError,
};
use machina_hw::k230_dtb::FdtMemoryRegion;
use machina_hw::ref_machine::{generate_fdt, RefFdtLayout, ShutdownReason, SifiveTest};
use machina_hw::riscv_boot::{
    builtin_boot_finish, builtin_kernel_entry, mrom_image, BuiltinKernel, PrivLevel, RiscvBootError,
};
use machina_hw::loongarch_interrupt::{ack_eiointc, coremap_byte, route_pch_irq_to_cpu_hwi};

fn contains(hay: &[u8], needle: &[u8]) -> bool {
    hay.windows(needle.len()).any(|w| w == needle)
}

fn word(b: &[u8], off: usize) -> u32 {
    u32::from_le_bytes([b[off], b[off + 1], b[off + 2], b[off + 3]])
}

fn dword(b: &[u8], off: usize) -> u64 {
    let mut a = [0u8; 8];
    a.copy_from_slice(&b[off..off + 8]);
    u64::from_le_bytes(a)
}

#[test]
fn test_mrom_reset_vector_content() {
    let img = mrom_image(0x8000_0000, 0x8700_0000, 0x8020_0000, false);
    assert_eq!(word(&img, 0), 0x0000_0297, "auipc t0, 0");
    assert_eq!(word(&img, 4), 0x0282_8613, "addi a2, t0, 0x28");
    assert_eq!(word(&img, 8), 0xf140_2573, "csrr a0, mhartid");
    assert_eq!(word(&img, 0x14), 0x0002_8067, "jr t0");
    assert_eq!(dword(&img, 0x18), 0x8000_0000, "start_addr = RAM_BASE");
    assert_eq!(dword(&img, 0x20), 0x8700_0000, "fdt_addr");
    assert_eq!(dword(&img, 0x28), 0x4942_534f, "OSBI magic");
}

#[test]
fn test_sifive_test_mmio_read_returns_zero() {
    let st = SifiveTest::new();
    assert_eq!(st.read(0, 4), 0, "SiFive Test MMIO read must return 0");
}

#[test]
fn test_sifive_test_pass_triggers_shutdown() {
    let mut st = SifiveTest::new();
    assert!(!st.is_triggered(), "device should not be triggered before write");
    assert_eq!(st.write(0, 4, 0x5555), Some(ShutdownReason::Pass));
    assert!(st.is_triggered(), "device must be triggered after PASS write");
}

fn low() -> LowRamLayout {
    LowRamLayout { windows: vec![(0x1000_0000, 0x1000_0000)], legacy_ipi_base: 0x1fe0_1000, legacy_ipi_stride: 0x100 }
}

fn dev() -> VirtFdtLayout {
    VirtFdtLayout {
        fw_cfg: (0x1e02_0000, 0x18),
        pch_msi: (0x2ff0_0000, 0x8),
        rtc: (0x100d_0100, 0x100),
        legacy_io: (0x1800_0000, 0x4000),
        flash0: (0x1c00_0000, 0x100_0000),
        flash1: (0x1d00_0000, 0x100_0000),
        rtc_irq: 6,
    }
}

#[test]
fn loongarch_fdt_describes_board() {
    let seed = [7u8; 32];
    let blob = build_fdt("console=ttyS0", 256 << 20, 2, None, false, &seed, &low(), &dev());
    assert_eq!(&blob[0..4], &[0xd0, 0x0d, 0xfe, 0xed]);
    let total = u32::from_be_bytes([blob[4], blob[5], blob[6], blob[7]]) as usize;
    assert_eq!(total, blob.len());
    assert!(contains(&blob, b"machina,loongarch64-ref\0"));
    assert!(contains(&blob, b"console=ttyS0\0"));
    assert!(contains(&blob, b"/serial@1fe001e0\0"));
    assert!(contains(&blob, b"cpu@0\0"));
    assert!(contains(&blob, b"cpu@1\0"));
    assert!(!contains(&blob, b"cpu@2\0"));
    assert!(contains(&blob, b"fw_cfg@1e020000\0"));
    assert!(contains(&blob, b"flash@1c000000\0"));
    assert!(!contains(&blob, b"virtio_mmio@"));
    let with_virtio = build_fdt("", 256 << 20, 1, Some((0x100_0000, 0x10)), true, &seed, &low(), &dev());
    assert!(contains(&with_virtio, b"virtio_mmio@10008000\0"));
    assert!(contains(&with_virtio, b"linux,initrd-end\0"));
}

fn kernel_range() -> GuestRange {
    GuestRange { start: KERNEL_ENTRY_DEFAULT, end: KERNEL_ENTRY_DEFAULT + 0x10_0000, label: RangeLabel::RawKernel }
}

#[test]
fn loongarch_boot_parameters_layout() {
    let ram = 256u64 << 20;
    let seed = [1u8; 32];
    let plan = write_boot_parameters("console=ttyS0", ram, 1, false, None, false, &[kernel_range()], &seed, &low(), &dev())
        .ok()
        .expect("plan");
    let base = VIRT_RAM_BASE + ram - 0x2_0000;
    assert_eq!(plan.cmdline_addr, base & 0x0fff_ffff_ffff_ffff);
    assert_eq!(plan.system_table_addr, (base + 0x1_0000) & 0x0fff_ffff_ffff_ffff);
    assert!(plan.initrd.is_none());
    assert_eq!(plan.writes.len(), 5);
    assert_eq!(plan.writes[0].0, base);
    assert_eq!(plan.writes[0].1, b"console=ttyS0\0".to_vec());
    assert_eq!(plan.writes[1].0, base + 0x2000);
    assert_eq!(&plan.writes[1].1[0..4], &[0xd0, 0x0d, 0xfe, 0xed]);
    assert_eq!(plan.writes[2].0, base + 0x1_0000);
    assert_eq!(plan.writes[2].1.len(), 120);
    assert_eq!(plan.writes[2].1[104], 2);
    assert_eq!(plan.writes[3].1.len(), 48);
    assert_eq!(plan.writes[4].0, base + 0x1_2000);
}

#[test]
fn loongarch_boot_parameters_with_initrd() {
    let ram = 256u64 << 20;
    let seed = [1u8; 32];
    let plan = write_boot_parameters("", ram, 2, true, Some(10_000), true, &[kernel_range()], &seed, &low(), &dev())
        .ok()
        .expect("plan");
    let base = VIRT_RAM_BASE + ram - 0x2_0000;
    let g = plan.initrd.expect("initrd");
    assert_eq!(g.end - g.start, 0x3000);
    assert!(g.end <= base);
    assert_eq!(plan.writes.len(), 6);
    assert_eq!(plan.writes[0].0, base + 0x1_3000);
    assert_eq!(plan.writes[4].1.len(), 72);
    assert_eq!(plan.writes[3].1[104], 3);
}

#[test]
fn loongarch_boot_parameters_errors() {
    let seed = [1u8; 32];
    let long = "x".repeat(4096);
    let r = write_boot_parameters(&long, 256 << 20, 1, false, None, false, &[], &seed, &low(), &dev());
    assert!(matches!(r, Err(BootError::CommandLineTooLong(4096))));
    let r = write_boot_parameters("", 0x1000, 1, false, None, false, &[], &seed, &low(), &dev());
    assert!(matches!(r, Err(BootError::RamTooSmall)));
    let big = 0x1_0000_0001u64;
    let r = write_boot_parameters("", 256 << 20, 1, false, Some(big), true, &[], &seed, &low(), &dev());
    assert!(r.is_err());
}

#[test]
fn loongarch_raw_kernel_plan() {
    let kernel = [0u8; 64];
    let plan = plan_kernel(&kernel, 256 << 20).ok().expect("plan");
    assert_eq!(plan.entry, KERNEL_ENTRY_DEFAULT);
    assert_eq!(plan.ranges.len(), 1);
    assert_eq!(plan.ranges[0].end - plan.ranges[0].start, 64);
    assert!(matches!(plan.kind, KernelLoadKind::Raw));
    let seed = [0u8; 32];
    let params = write_boot_parameters("", 256 << 20, 1, false, None, false, &plan.ranges, &seed, &low(), &dev())
        .ok()
        .expect("params");
    let boot = direct_kernel_boot(&plan, &params);
    assert_eq!(boot.entry, KERNEL_ENTRY_DEFAULT);
    assert_eq!(boot.efi_boot, 1);
    assert_eq!(boot.cmdline_addr, params.cmdline_addr);
}

#[test]
fn virt_machine_config_default() {
    let c = VirtMachineConfig::default();
    assert_eq!(c.ram_size, 256 * 1024 * 1024);
    assert!(c.kernel_path.is_none());
}

#[test]
fn k230_boot_placement() {
    assert_eq!(check_boot_inputs(true, false), Err(K230BootError::InitrdNeedsDtb));
    assert_eq!(check_boot_inputs(true, true), Ok(()));
    assert_eq!(align_up_4k(0x1001), 0x2000);
    assert_eq!(align_up_2m(0x20_0000), 0x20_0000);
    assert_eq!(k230_kernel_load_addr(true, 0x2_1000, None), 0x20_0000);
    assert_eq!(k230_kernel_load_addr(false, 0x2_1000, None), 0);
    let win = Some(FdtMemoryRegion { base: 0x20_0000, size: 0x2000_0000 });
    assert_eq!(k230_kernel_load_addr(false, 0, win), 0x20_0000);
    let r = k230_initrd_range(Some((0x20_0000, 0x120_0000)), win, 0x8000_0000, 0x1000).unwrap();
    assert_eq!(r, (0x1020_0000, 0x1020_1000));
    assert_eq!(k230_initrd_range(None, None, 0x8000_0000, 0x10), Ok((0x0a10_0000, 0x0a10_0010)));
    assert_eq!(
        k230_initrd_range(None, Some(FdtMemoryRegion { base: 0, size: 0x100 }), 0x8000_0000, 0x10),
        Err(K230BootError::InitrdOutsideWindow)
    );
    assert_eq!(k230_place_dtb(0x1000, win, 0x8000_0000), Ok(0x2000_0000));
    assert_eq!(k230_place_dtb(0x1003, None, 0x10_0000), Ok(0xe_eff8));
    assert_eq!(k230_place_dtb(0x20, None, 0x10), Err(K230BootError::DtbTooLargeForDdr));
    assert_eq!(k230_check_loader(false, 0, 1, 0x1000), Err(K230BootError::LoaderNotRaw));
    assert_eq!(k230_check_loader(true, 0xf00, 0x100, 0x1000), Ok(()));
    assert!(matches!(k230_check_loader(true, 0xf01, 0x100, 0x1000), Err(K230BootError::LoaderOutsideDdr { .. })));
}

fn ref_layout(virtio: bool) -> RefFdtLayout {
    RefFdtLayout {
        plic: (0x0c00_0000, 0x60_0000),
        aclint: (0x0200_0000, 0x1_0000),
        uart: (0x1000_0000, 0x100),
        virtio: if virtio { Some((0x1000_1000, 0x1000)) } else { None },
    }
}

#[test]
fn test_ref_machine_fdt_valid() {
    let fdt = generate_fdt(128 * 1024 * 1024, 1, &ref_layout(false), None, None);
    assert!(fdt.len() >= 40, "FDT too short");
    let magic = u32::from_be_bytes([fdt[0], fdt[1], fdt[2], fdt[3]]);
    assert_eq!(magic, 0xd00d_feed, "bad FDT magic: {magic:#010x}");
    assert!(contains(&fdt, b"riscv,sv39"), "FDT missing riscv,sv39 mmu-type");
    assert!(!contains(&fdt, b"riscv,sv48"), "FDT still contains riscv,sv48");
}

#[test]
fn test_ref_machine_fdt_has_cpu() {
    let fdt = generate_fdt(128 * 1024 * 1024, 1, &ref_layout(false), None, None);
    assert!(contains(&fdt, b"cpu"), "FDT does not contain 'cpu'");
}

#[test]
fn test_fdt_has_phandle() {
    let fdt = generate_fdt(128 * 1024 * 1024, 1, &ref_layout(false), None, None);
    assert!(contains(&fdt, b"phandle"), "FDT should contain phandle property");
}

#[test]
fn test_fdt_has_interrupts_extended() {
    let fdt = generate_fdt(128 * 1024 * 1024, 1, &ref_layout(false), None, None);
    assert!(contains(&fdt, b"interrupts-extended"), "FDT should contain interrupts-extended");
}

#[test]
fn test_sifive_test_dtb_has_node() {
    let fdt = generate_fdt(128 * 1024 * 1024, 1, &ref_layout(false), None, None);
    assert!(contains(&fdt, b"sifive,test0"), "FDT must contain 'sifive,test0' compatible");
}

#[test]
fn ref_fdt_chosen_and_harts() {
    let fdt = generate_fdt(0x1_0000_0000, 2, &ref_layout(true), Some("console=ttyS0"), Some((0x8800_0000, 0x8810_0000)));
    assert!(contains(&fdt, b"cpu@1\0"));
    assert!(contains(&fdt, b"plic@c000000\0"));
    assert!(contains(&fdt, b"clint@2000000\0"));
    assert!(contains(&fdt, b"virtio_mmio@10001000\0"));
    assert!(contains(&fdt, b"/soc/serial@10000000\0"));
    assert!(contains(&fdt, b"console=ttyS0\0"));
    assert!(contains(&fdt, &[0, 0, 0, 1, 0, 0, 0, 11, 0, 0, 0, 1, 0, 0, 0, 9, 0, 0, 0, 2, 0, 0, 0, 11, 0, 0, 0, 2, 0, 0, 0, 9]));
    assert!(contains(&fdt, &[0, 0, 0, 0, 0x80, 0, 0, 0, 0, 0, 0, 1, 0, 0, 0, 0]));
}

#[test]
fn loongarch_interrupt_route() {
    assert_eq!(coremap_byte(0), 0x01);
    assert_eq!(coremap_byte(5), 0x12);
    let w = route_pch_irq_to_cpu_hwi(2, 2, 0, 1, 0xffff_ffff_ffff_ffff, 0x1);
    assert_eq!(w.len(), 5);
    assert_eq!((w[0].eio, w[0].offset, w[0].size, w[0].value), (false, 0x202, 1, 2));
    assert_eq!((w[1].offset, w[1].value), (0x20, 0xffff_ffff_ffff_fffb));
    assert_eq!((w[2].offset, w[2].value), (0xc0, 0x2));
    assert_eq!((w[3].offset, w[3].value), (0x802, 0x1));
    assert_eq!((w[4].offset, w[4].size, w[4].value), (0x200, 4, 0x5));
    let a = ack_eiointc(1, 33);
    assert_eq!((a.cpu, a.offset, a.value), (1, 0x404, 0x2));
}

#[test]
fn builtin_boot_requires_a_kernel_and_enters_raw_images_at_ram_base() {
    assert_eq!(builtin_kernel_entry(None), Err(RiscvBootError::KernelRequired));
    assert_eq!(
        builtin_kernel_entry(Some(BuiltinKernel::Raw { high_addr: 0x8020_0000 })),
        Ok((0x8000_0000, 0x8020_0000))
    );
    let elf = BuiltinKernel::Elf {
        entry: 0x8000_1000,
        bias: Some(0x1000),
        start_sym: Some(0x10),
        alt_start_sym: None,
        high_addr: 0x8010_0000,
    };
    assert_eq!(builtin_kernel_entry(Some(elf)), Ok((0x8000_1000, 0x8010_0000)));
}

#[test]
fn builtin_boot_finish_places_fdt_and_starts_hart0_in_supervisor_mode() {
    let ram_size = 0x800_0000u64;
    let plan = builtin_boot_finish(0x8000_0000, 0x1234, ram_size).unwrap();
    let fdt_addr = 0x8000_0000 + ((ram_size - 0x1_0000 - 0x1234) & !7);
    assert_eq!(plan.fdt_addr, fdt_addr);
    assert_eq!(plan.cpu.priv_level, PrivLevel::Supervisor);
    assert_eq!(plan.cpu.pc, 0x8000_0000);
    assert_eq!(plan.cpu.a0, 0);
    assert_eq!(plan.cpu.a1, fdt_addr);
    assert_eq!(plan.cpu.mideleg, 0x0222);
    assert_eq!(plan.cpu.medeleg, 0xB1FF);
    assert_eq!(plan.cpu.mie, 0x80);
    assert_eq!(plan.cpu.pmpaddr0, u64::MAX);
    assert_eq!(plan.cpu.pmpcfg0, 0x1F);
    assert_eq!(plan.mrom_word, 0x0000_006F);
    assert_eq!(builtin_boot_finish(0x8000_0000, ram_size + 1, ram_size), Err(RiscvBootError::FdtTooLarge));
}

#[test]
fn board_option_checks_match_machine_setup() {
    assert_eq!(check_k230_ram_size(0x8000_0000), Ok(()));
    assert_eq!(check_k230_ram_size(0x4000_0000), Err(0x8000_0000));
    assert_eq!(check_virt_options(0, 1, false), Err(VirtOptionsError::NoRam));
    assert_eq!(check_virt_options(1 << 30, 2, false), Err(VirtOptionsError::CpuCount));
    assert_eq!(check_virt_options(1 << 30, 1, true), Err(VirtOptionsError::NetdevUnsupported));
    assert_eq!(check_virt_options(1 << 30, 1, false), Ok(()));
    assert_eq!(check_fw_cfg_kernel(4096), Ok(()));
    assert_eq!(
        check_fw_cfg_kernel(0x1_0000_0000),
        Err(BootError::FwCfgTooLarge(RangeLabel::FwCfgKernel))
    );
}
