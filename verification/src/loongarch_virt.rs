//! The LoongArch `virt` board: its fixed memory map and configuration,
//! and the device tree handed to a directly booted kernel.
//!
//! A device tree is described here as the list of writer steps that
//! produce it (open a node, add a property, close a node); the blob is
//! what those steps write.
use vstd::prelude::*;
use vstd::string::StringSliceAdditionalSpecFns;
use crate::fdt::{be4, be8, cells_be};
use crate::fdt_ops::{
    FdtOp, op_begin, op_prop, op_end, ops_blob, hex_text, dec_text, str_val, hex_name, OpWriter,
    push_all, push_dec, hex_node_name, reg_op,
};
use crate::loongarch_boot::{
    LowRamLayout, canonical_regions, in_regions, in_windows, page_down, reserved_candidates,
    reg_cells_spec, make_reg_cells, low_ram_usable_ranges, VIRT_RAM_SIZE_DEFAULT, VIRT_RAM_BASE,
    BootError, RangeLabel, GuestRange, boot_param_base, reject_overlap, secondary_boot_reserved_range,
    plan_initrd, initrd_search, in_ram_spec, first_overlap, ranges_overlap, spec_ram_end,
    lemma_first_overlap_exists,
    build_boot_memmap, memmap_tiles, memmap_header, descs_bytes, append_config_table,
    build_efi_system_table, build_initrd_table, ensure_ram_range, ram_range_check,
    BOOT_PARAM_WINDOW_SIZE, BOOT_FDT_OFFSET, BOOT_SYSTEM_TABLE_OFFSET, BOOT_CONFIG_TABLE_OFFSET,
    BOOT_MEMMAP_OFFSET, BOOT_INITRD_TABLE_OFFSET, COMMAND_LINE_SIZE, EFI_SYSTEM_TABLE_SIZE,
    EFI_SYSTEM_TABLE_SIGNATURE, EFI_SPECIFICATION_VERSION, EFI_BOOT_MODE, KERNEL_ENTRY_DEFAULT,
    KernelLoadKind, KernelLoadPlan, LinuxImageHeader, normalize_spec, linux_header_spec, elf_plan,
    is_elf, parse_linux_image_header, analyze_elf_kernel, analyze_linux_image_kernel,
    analyze_raw_kernel,
};
use crate::bytes::le_bytes;

verus! {

pub const VIRT_UART_BASE: u64 = 0x1FE0_01E0;
pub const VIRT_UART_SIZE: u64 = 0x8;
pub const VIRT_IPI_BASE: u64 = 0x0100_0000;
pub const VIRT_IPI_SIZE: u64 = 0x100;
pub const VIRT_EIOINTC_BASE: u64 = 0x0200_0000;
pub const VIRT_EIOINTC_SIZE: u64 = 0x1_0000;
pub const VIRT_PCH_PIC_BASE: u64 = 0x1000_0000;
pub const VIRT_PCH_PIC_SIZE: u64 = 0x400;
pub const VIRT_VIRTIO_BASE: u64 = 0x1000_8000;
pub const VIRT_VIRTIO_SIZE: u64 = 0x1000;
pub const VIRT_CPUCFG_PRID: u32 = 0x0014_C010;
/// PCH-PIC input of the console UART.
pub const LOONGARCH_UART_PCH_IRQ: u32 = 2;
/// PCH-PIC input of the first virtio-mmio slot.
pub const LOONGARCH_VIRTIO_PCH_IRQ_BASE: u32 = 3;

/// How the `virt` board is configured.
pub struct VirtMachineConfig {
    pub ram_size: u64,
    pub kernel_path: Option<String>,
}

impl Default for VirtMachineConfig {
    fn default() -> (r: Self)
        ensures
            r.ram_size == VIRT_RAM_SIZE_DEFAULT,
            r.kernel_path is None,
    {
        VirtMachineConfig { ram_size: VIRT_RAM_SIZE_DEFAULT, kernel_path: None }
    }
}

/// Why the `virt` board refuses its options.
#[derive(Debug, Clone, Copy, PartialEq, Eq, Structural)]
pub enum VirtOptionsError {
    /// The RAM size is zero.
    NoRam,
    /// The board runs with exactly one CPU.
    CpuCount,
    /// The board has no network device.
    NetdevUnsupported,
}

/// Check the board options, in this order: some RAM, one CPU, no
/// network device.
pub fn check_virt_options(ram_size: u64, cpu_count: u32, has_netdev: bool) -> (r: Result<(), VirtOptionsError>)
    ensures
        ram_size == 0 ==> r == Err::<(), VirtOptionsError>(VirtOptionsError::NoRam),
        ram_size != 0 && cpu_count != 1 ==> r == Err::<(), VirtOptionsError>(VirtOptionsError::CpuCount),
        ram_size != 0 && cpu_count == 1 && has_netdev ==> r == Err::<(), VirtOptionsError>(
            VirtOptionsError::NetdevUnsupported,
        ),
        ram_size != 0 && cpu_count == 1 && !has_netdev ==> r is Ok,
{
    if ram_size == 0 {
        return Err(VirtOptionsError::NoRam);
    }
    if cpu_count != 1 {
        return Err(VirtOptionsError::CpuCount);
    }
    if has_netdev {
        return Err(VirtOptionsError::NetdevUnsupported);
    }
    Ok(())
}

/// What a directly booted kernel is started with.
#[derive(Debug, Clone, Copy, PartialEq, Eq, Structural)]
pub struct DirectKernelBoot {
    pub entry: u64,
    pub efi_boot: u64,
    pub cmdline_addr: u64,
    pub system_table_addr: u64,
}

/// The board windows that the device tree describes besides the fixed
/// ones above: `(base, size)` of each, and the RTC's PCH-PIC input.
#[derive(Debug, Clone, Copy)]
pub struct VirtFdtLayout {
    pub fw_cfg: (u64, u64),
    pub pch_msi: (u64, u64),
    pub rtc: (u64, u64),
    pub legacy_io: (u64, u64),
    pub flash0: (u64, u64),
    pub flash1: (u64, u64),
    pub rtc_irq: u32,
}


/// `u` is the usable low RAM of `ram_size` bytes for `cpu_count` CPUs:
/// sorted, gap-separated regions covering every page-aligned RAM address
/// outside the reserved windows.
pub open spec fn usable_low_ram(u: Seq<(u64, u64)>, ram_size: u64, cpu_count: u32, low: LowRamLayout) -> bool {
    &&& canonical_regions(u, page_down(ram_size as int))
    &&& forall|a: int|
        in_regions(u, a) <==> (0 <= a < page_down(ram_size as int) && !in_windows(
            reserved_candidates(low.windows@, low.legacy_ipi_base, low.legacy_ipi_stride, cpu_count),
            a,
        ))
}

pub open spec fn root_ops() -> Seq<FdtOp> {
    seq![
        op_begin("".spec_bytes()),
        op_prop("compatible".spec_bytes(), str_val("machina,loongarch64-ref")),
        op_prop("#address-cells".spec_bytes(), be4(2)),
        op_prop("#size-cells".spec_bytes(), be4(2)),
    ]
}

pub open spec fn chosen_ops(cmdline: Seq<u8>, seed: Seq<u8>, initrd: Option<(u64, u64)>) -> Seq<FdtOp> {
    seq![
        op_begin("chosen".spec_bytes()),
        op_prop("rng-seed".spec_bytes(), seed),
        op_prop("bootargs".spec_bytes(), cmdline + seq![0u8]),
        op_prop("stdout-path".spec_bytes(), hex_name("/serial@", VIRT_UART_BASE) + seq![0u8]),
    ] + match initrd {
        Some(p) => seq![
            op_prop("linux,initrd-start".spec_bytes(), be8(p.0)),
            op_prop("linux,initrd-end".spec_bytes(), be8((p.0 + p.1) as u64)),
        ],
        None => Seq::empty(),
    } + seq![op_end()]
}

pub open spec fn cpus_head_ops() -> Seq<FdtOp> {
    seq![
        op_begin("cpus".spec_bytes()),
        op_prop("#address-cells".spec_bytes(), be4(1)),
        op_prop("#size-cells".spec_bytes(), be4(0)),
    ]
}

pub open spec fn cpu_ops(id: u32) -> Seq<FdtOp> {
    seq![
        op_begin("cpu@".spec_bytes() + dec_text(id as nat)),
        op_prop("device_type".spec_bytes(), str_val("cpu")),
        op_prop("compatible".spec_bytes(), str_val("loongarch,la464")),
        op_prop("reg".spec_bytes(), be4(id)),
        op_end(),
    ]
}

/// The nodes of CPUs `0..n`.
pub open spec fn cpu_nodes(n: nat) -> Seq<FdtOp>
    decreases n,
{
    if n == 0 {
        Seq::empty()
    } else {
        cpu_nodes((n - 1) as nat) + cpu_ops((n - 1) as u32)
    }
}

pub open spec fn cpuic_ops() -> Seq<FdtOp> {
    seq![
        op_begin("cpuic".spec_bytes()),
        op_prop("phandle".spec_bytes(), be4(1)),
        op_prop("compatible".spec_bytes(), str_val("loongson,cpu-interrupt-controller")),
        op_prop("interrupt-controller".spec_bytes(), Seq::empty()),
        op_prop("#interrupt-cells".spec_bytes(), be4(1)),
        op_end(),
    ]
}

pub open spec fn memory_ops(usable: Seq<(u64, u64)>) -> Seq<FdtOp> {
    seq![
        op_begin("memory@0".spec_bytes()),
        op_prop("device_type".spec_bytes(), str_val("memory")),
        reg_op(usable),
        op_end(),
    ]
}

pub open spec fn fw_cfg_ops(d: VirtFdtLayout) -> Seq<FdtOp> {
    seq![
        op_begin(hex_name("fw_cfg@", d.fw_cfg.0)),
        op_prop("compatible".spec_bytes(), str_val("qemu,fw-cfg-mmio")),
        reg_op(seq![d.fw_cfg]),
        op_prop("dma-coherent".spec_bytes(), Seq::empty()),
        op_end(),
    ]
}

pub open spec fn ipi_ops() -> Seq<FdtOp> {
    seq![
        op_begin(hex_name("ipi@", VIRT_IPI_BASE)),
        op_prop("compatible".spec_bytes(), str_val("loongson,ipi")),
        reg_op(seq![(VIRT_IPI_BASE, VIRT_IPI_SIZE)]),
        op_end(),
    ]
}

pub open spec fn eiointc_ops() -> Seq<FdtOp> {
    seq![
        op_begin(hex_name("eiointc@", VIRT_EIOINTC_BASE)),
        op_prop("phandle".spec_bytes(), be4(2)),
        op_prop(
            "compatible".spec_bytes(),
            str_val("loongson,ls2k2000-eiointc") + str_val("loongson,htvec-1.0"),
        ),
        reg_op(seq![(VIRT_EIOINTC_BASE, VIRT_EIOINTC_SIZE)]),
        op_prop("interrupt-controller".spec_bytes(), Seq::empty()),
        op_prop("#interrupt-cells".spec_bytes(), be4(1)),
        op_prop("interrupt-parent".spec_bytes(), be4(1)),
        op_prop("interrupts".spec_bytes(), be4(3)),
        op_end(),
    ]
}

pub open spec fn platic_ops() -> Seq<FdtOp> {
    seq![
        op_begin(hex_name("platic@", VIRT_PCH_PIC_BASE)),
        op_prop("phandle".spec_bytes(), be4(3)),
        op_prop("compatible".spec_bytes(), str_val("loongson,pch-pic-1.0")),
        reg_op(seq![(VIRT_PCH_PIC_BASE, VIRT_PCH_PIC_SIZE)]),
        op_prop("interrupt-controller".spec_bytes(), Seq::empty()),
        op_prop("#interrupt-cells".spec_bytes(), be4(2)),
        op_prop("interrupt-parent".spec_bytes(), be4(2)),
        op_prop("loongson,pic-base-vec".spec_bytes(), be4(0)),
        op_end(),
    ]
}

pub open spec fn msi_ops(d: VirtFdtLayout) -> Seq<FdtOp> {
    seq![
        op_begin(hex_name("msi@", d.pch_msi.0)),
        op_prop("compatible".spec_bytes(), str_val("loongson,pch-msi-1.0")),
        reg_op(seq![d.pch_msi]),
        op_prop("msi-controller".spec_bytes(), Seq::empty()),
        op_prop("interrupt-parent".spec_bytes(), be4(2)),
        op_end(),
    ]
}

pub open spec fn rtc_ops(d: VirtFdtLayout) -> Seq<FdtOp> {
    seq![
        op_begin(hex_name("rtc@", d.rtc.0)),
        op_prop("compatible".spec_bytes(), str_val("loongson,ls7a-rtc")),
        reg_op(seq![d.rtc]),
        op_prop("interrupts".spec_bytes(), cells_be(seq![d.rtc_irq, 4u32])),
        op_prop("interrupt-parent".spec_bytes(), be4(3)),
        op_end(),
    ]
}

pub open spec fn isa_ops(d: VirtFdtLayout) -> Seq<FdtOp> {
    let b = d.legacy_io.0;
    seq![
        op_begin(hex_name("isa@", b)),
        op_prop("compatible".spec_bytes(), str_val("isa")),
        op_prop("#address-cells".spec_bytes(), be4(2)),
        op_prop("#size-cells".spec_bytes(), be4(1)),
        op_prop(
            "ranges".spec_bytes(),
            cells_be(
                seq![
                    1u32,
                    0u32,
                    (b / 0x1_0000_0000) as u32,
                    (b % 0x1_0000_0000) as u32,
                    d.legacy_io.1 as u32,
                ],
            ),
        ),
        op_end(),
    ]
}

pub open spec fn flash_ops(d: VirtFdtLayout) -> Seq<FdtOp> {
    seq![
        op_begin(hex_name("flash@", d.flash0.0)),
        op_prop("compatible".spec_bytes(), str_val("cfi-flash")),
        reg_op(seq![d.flash0, d.flash1]),
        op_prop("bank-width".spec_bytes(), be4(4)),
        op_end(),
    ]
}

pub open spec fn serial_ops() -> Seq<FdtOp> {
    seq![
        op_begin(hex_name("serial@", VIRT_UART_BASE)),
        op_prop("compatible".spec_bytes(), str_val("ns16550a")),
        reg_op(seq![(VIRT_UART_BASE, VIRT_UART_SIZE)]),
        op_prop("clock-frequency".spec_bytes(), be4(100_000_000)),
        op_prop("interrupts".spec_bytes(), cells_be(seq![LOONGARCH_UART_PCH_IRQ, 4u32])),
        op_prop("interrupt-parent".spec_bytes(), be4(3)),
        op_end(),
    ]
}

pub open spec fn virtio_ops(present: bool) -> Seq<FdtOp> {
    if present {
        seq![
            op_begin(hex_name("virtio_mmio@", VIRT_VIRTIO_BASE)),
            op_prop("compatible".spec_bytes(), str_val("virtio,mmio")),
            reg_op(seq![(VIRT_VIRTIO_BASE, VIRT_VIRTIO_SIZE)]),
            op_prop("interrupts".spec_bytes(), cells_be(seq![LOONGARCH_VIRTIO_PCH_IRQ_BASE, 4u32])),
            op_prop("interrupt-parent".spec_bytes(), be4(3)),
            op_end(),
        ]
    } else {
        Seq::empty()
    }
}

/// The steps that write the `virt` device tree.
pub open spec fn virt_fdt_ops(
    cmdline: Seq<u8>,
    seed: Seq<u8>,
    initrd: Option<(u64, u64)>,
    cpu_count: u32,
    usable: Seq<(u64, u64)>,
    has_virtio_mmio: bool,
    d: VirtFdtLayout,
) -> Seq<FdtOp> {
    root_ops() + chosen_ops(cmdline, seed, initrd) + cpus_head_ops() + cpu_nodes(cpu_count as nat)
        + seq![op_end()] + cpuic_ops() + memory_ops(usable) + fw_cfg_ops(d) + ipi_ops()
        + eiointc_ops() + platic_ops() + msi_ops(d) + rtc_ops(d) + isa_ops(d) + flash_ops(d)
        + serial_ops() + virtio_ops(has_virtio_mmio) + seq![op_end()]
}

fn write_root(w: &mut OpWriter)
    requires
        old(w).wf(),
        old(w).ops@ == Seq::<FdtOp>::empty(),
    ensures
        final(w).wf(),
        final(w).ops@ == root_ops(),
{
    let ghost s0 = w.ops@;
    w.begin("".as_bytes());
    w.prop_str("compatible", "machina,loongarch64-ref");
    w.prop_u32("#address-cells", 2);
    w.prop_u32("#size-cells", 2);
    proof {

        assert(w.ops@ =~= root_ops());
    }
}

fn write_chosen(w: &mut OpWriter, cmdline: &str, rng_seed: &[u8], initrd: Option<(u64, u64)>)
    requires
        old(w).wf(),
        initrd matches Some(p) ==> p.0 + p.1 <= u64::MAX,
    ensures
        final(w).wf(),
        final(w).ops@ == old(w).ops@ + chosen_ops(cmdline.spec_bytes(), rng_seed@, initrd),
{
    let ghost s0 = w.ops@;
    w.begin("chosen".as_bytes());
    w.prop("rng-seed", rng_seed);
    let mut args: Vec<u8> = Vec::new();
    push_all(&mut args, cmdline.as_bytes());
    args.push(0);
    w.prop("bootargs", args.as_slice());
    let mut path = hex_node_name("/serial@", VIRT_UART_BASE);
    path.push(0);
    w.prop("stdout-path", path.as_slice());
    match initrd {
        Some(p) => {
            w.prop_u64("linux,initrd-start", p.0);
            w.prop_u64("linux,initrd-end", p.0 + p.1);
        },
        None => {},
    }
    w.end();
    proof {
        assert(args@ =~= cmdline.spec_bytes() + seq![0u8]);
        assert(path@ =~= hex_name("/serial@", VIRT_UART_BASE) + seq![0u8]);
        assert(w.ops@ =~= s0 + chosen_ops(cmdline.spec_bytes(), rng_seed@, initrd));
    }
}

fn write_cpus(w: &mut OpWriter, cpu_count: u32)
    requires
        old(w).wf(),
    ensures
        final(w).wf(),
        final(w).ops@ == old(w).ops@ + cpus_head_ops() + cpu_nodes(cpu_count as nat) + seq![op_end()],
{
    let ghost s0 = w.ops@;
    w.begin("cpus".as_bytes());
    w.prop_u32("#address-cells", 1);
    w.prop_u32("#size-cells", 0);
    proof {
        assert(w.ops@ =~= s0 + cpus_head_ops());
        assert(cpu_nodes(0) =~= Seq::<FdtOp>::empty());
    }
    let ghost s3 = w.ops@;
    let mut cpu_id: u32 = 0;
    while cpu_id < cpu_count
        invariant
            cpu_id <= cpu_count,
            w.wf(),
            w.ops@ =~= s3 + cpu_nodes(cpu_id as nat),
        decreases cpu_count - cpu_id,
    {
        let ghost before = w.ops@;
        let mut name: Vec<u8> = Vec::new();
        push_all(&mut name, "cpu@".as_bytes());
        push_dec(&mut name, cpu_id as u64);
        w.begin(name.as_slice());
        w.prop_str("device_type", "cpu");
        w.prop_str("compatible", "loongarch,la464");
        w.prop_u32("reg", cpu_id);
        w.end();
        proof {
            assert(name@ =~= "cpu@".spec_bytes() + dec_text(cpu_id as nat));
            assert(w.ops@ =~= before + cpu_ops(cpu_id));
            assert(cpu_nodes((cpu_id + 1) as nat) == cpu_nodes(cpu_id as nat) + cpu_ops(cpu_id));
            assert(w.ops@ =~= s3 + cpu_nodes((cpu_id + 1) as nat));
        }
        cpu_id = cpu_id + 1;
    }
    w.end();
    proof {
        assert(w.ops@ =~= s0 + cpus_head_ops() + cpu_nodes(cpu_count as nat) + seq![op_end()]);
    }
}

fn write_close(w: &mut OpWriter)
    requires
        old(w).wf(),
    ensures
        final(w).wf(),
        final(w).ops@ == old(w).ops@ + seq![op_end()],
{
    w.end();
    proof {
        assert(w.ops@ =~= old(w).ops@ + seq![op_end()]);
    }
}

fn write_cpuic(w: &mut OpWriter)
    requires
        old(w).wf(),
    ensures
        final(w).wf(),
        final(w).ops@ == old(w).ops@ + cpuic_ops(),
{
    let ghost s0 = w.ops@;
    w.begin("cpuic".as_bytes());
    w.prop_u32("phandle", 1);
    w.prop_str("compatible", "loongson,cpu-interrupt-controller");
    w.prop_empty("interrupt-controller");
    w.prop_u32("#interrupt-cells", 1);
    w.end();
    proof {

        assert(w.ops@ =~= s0 + cpuic_ops());
    }
}

fn write_memory(w: &mut OpWriter, usable: &[(u64, u64)])
    requires
        old(w).wf(),
    ensures
        final(w).wf(),
        final(w).ops@ == old(w).ops@ + memory_ops(usable@),
{
    let ghost s0 = w.ops@;
    w.begin("memory@0".as_bytes());
    w.prop_str("device_type", "memory");
    w.reg(usable);
    w.end();
    proof {

        assert(w.ops@ =~= s0 + memory_ops(usable@));
    }
}

fn write_fw_cfg(w: &mut OpWriter, dev: &VirtFdtLayout)
    requires
        old(w).wf(),
    ensures
        final(w).wf(),
        final(w).ops@ == old(w).ops@ + fw_cfg_ops(*dev),
{
    let ghost s0 = w.ops@;
    let name = hex_node_name("fw_cfg@", dev.fw_cfg.0);
    w.begin(name.as_slice());
    w.prop_str("compatible", "qemu,fw-cfg-mmio");
    let regs = [dev.fw_cfg];
    w.reg(&regs);
    w.prop_empty("dma-coherent");
    w.end();
    proof {
        assert(regs@ =~= seq![dev.fw_cfg]);
        assert(w.ops@ =~= s0 + fw_cfg_ops(*dev));
    }
}

fn write_ipi(w: &mut OpWriter)
    requires
        old(w).wf(),
    ensures
        final(w).wf(),
        final(w).ops@ == old(w).ops@ + ipi_ops(),
{
    let ghost s0 = w.ops@;
    let name = hex_node_name("ipi@", VIRT_IPI_BASE);
    w.begin(name.as_slice());
    w.prop_str("compatible", "loongson,ipi");
    let regs = [(VIRT_IPI_BASE, VIRT_IPI_SIZE)];
    w.reg(&regs);
    w.end();
    proof {
        assert(regs@ =~= seq![(VIRT_IPI_BASE, VIRT_IPI_SIZE)]);
        assert(w.ops@ =~= s0 + ipi_ops());
    }
}

fn write_eiointc(w: &mut OpWriter)
    requires
        old(w).wf(),
    ensures
        final(w).wf(),
        final(w).ops@ == old(w).ops@ + eiointc_ops(),
{
    let ghost s0 = w.ops@;
    let name = hex_node_name("eiointc@", VIRT_EIOINTC_BASE);
    w.begin(name.as_slice());
    w.prop_u32("phandle", 2);
    let mut compat: Vec<u8> = Vec::new();
    push_all(&mut compat, "loongson,ls2k2000-eiointc".as_bytes());
    compat.push(0);
    push_all(&mut compat, "loongson,htvec-1.0".as_bytes());
    compat.push(0);
    w.prop("compatible", compat.as_slice());
    let regs = [(VIRT_EIOINTC_BASE, VIRT_EIOINTC_SIZE)];
    w.reg(&regs);
    w.prop_empty("interrupt-controller");
    w.prop_u32("#interrupt-cells", 1);
    w.prop_u32("interrupt-parent", 1);
    w.prop_u32("interrupts", 3);
    w.end();
    proof {
        assert(compat@ =~= str_val("loongson,ls2k2000-eiointc") + str_val("loongson,htvec-1.0"));
        assert(regs@ =~= seq![(VIRT_EIOINTC_BASE, VIRT_EIOINTC_SIZE)]);
        assert(w.ops@ =~= s0 + eiointc_ops());
    }
}

fn write_platic(w: &mut OpWriter)
    requires
        old(w).wf(),
    ensures
        final(w).wf(),
        final(w).ops@ == old(w).ops@ + platic_ops(),
{
    let ghost s0 = w.ops@;
    let name = hex_node_name("platic@", VIRT_PCH_PIC_BASE);
    w.begin(name.as_slice());
    w.prop_u32("phandle", 3);
    w.prop_str("compatible", "loongson,pch-pic-1.0");
    let regs = [(VIRT_PCH_PIC_BASE, VIRT_PCH_PIC_SIZE)];
    w.reg(&regs);
    w.prop_empty("interrupt-controller");
    w.prop_u32("#interrupt-cells", 2);
    w.prop_u32("interrupt-parent", 2);
    w.prop_u32("loongson,pic-base-vec", 0);
    w.end();
    proof {
        assert(regs@ =~= seq![(VIRT_PCH_PIC_BASE, VIRT_PCH_PIC_SIZE)]);
        assert(w.ops@ =~= s0 + platic_ops());
    }
}

fn write_msi(w: &mut OpWriter, dev: &VirtFdtLayout)
    requires
        old(w).wf(),
    ensures
        final(w).wf(),
        final(w).ops@ == old(w).ops@ + msi_ops(*dev),
{
    let ghost s0 = w.ops@;
    let name = hex_node_name("msi@", dev.pch_msi.0);
    w.begin(name.as_slice());
    w.prop_str("compatible", "loongson,pch-msi-1.0");
    let regs = [dev.pch_msi];
    w.reg(&regs);
    w.prop_empty("msi-controller");
    w.prop_u32("interrupt-parent", 2);
    w.end();
    proof {
        assert(regs@ =~= seq![dev.pch_msi]);
        assert(w.ops@ =~= s0 + msi_ops(*dev));
    }
}

fn write_rtc(w: &mut OpWriter, dev: &VirtFdtLayout)
    requires
        old(w).wf(),
    ensures
        final(w).wf(),
        final(w).ops@ == old(w).ops@ + rtc_ops(*dev),
{
    let ghost s0 = w.ops@;
    let name = hex_node_name("rtc@", dev.rtc.0);
    w.begin(name.as_slice());
    w.prop_str("compatible", "loongson,ls7a-rtc");
    let regs = [dev.rtc];
    w.reg(&regs);
    let irqs = [dev.rtc_irq, 4u32];
    w.prop_cells("interrupts", &irqs);
    w.prop_u32("interrupt-parent", 3);
    w.end();
    proof {
        assert(regs@ =~= seq![dev.rtc]);
        assert(irqs@ =~= seq![dev.rtc_irq, 4u32]);
        assert(w.ops@ =~= s0 + rtc_ops(*dev));
    }
}

fn write_isa(w: &mut OpWriter, dev: &VirtFdtLayout)
    requires
        old(w).wf(),
    ensures
        final(w).wf(),
        final(w).ops@ == old(w).ops@ + isa_ops(*dev),
{
    let ghost s0 = w.ops@;
    let io_base = dev.legacy_io.0;
    let name = hex_node_name("isa@", io_base);
    w.begin(name.as_slice());
    w.prop_str("compatible", "isa");
    w.prop_u32("#address-cells", 2);
    w.prop_u32("#size-cells", 1);
    let ranges = crate::loongarch_boot::isa_io_range_cells(io_base, dev.legacy_io.1 as u32);
    w.prop_cells("ranges", &ranges);
    w.end();
    proof {

        assert(w.ops@ =~= s0 + isa_ops(*dev));
    }
}

fn write_flash(w: &mut OpWriter, dev: &VirtFdtLayout)
    requires
        old(w).wf(),
    ensures
        final(w).wf(),
        final(w).ops@ == old(w).ops@ + flash_ops(*dev),
{
    let ghost s0 = w.ops@;
    let name = hex_node_name("flash@", dev.flash0.0);
    w.begin(name.as_slice());
    w.prop_str("compatible", "cfi-flash");
    let regs = [dev.flash0, dev.flash1];
    w.reg(&regs);
    w.prop_u32("bank-width", 4);
    w.end();
    proof {
        assert(regs@ =~= seq![dev.flash0, dev.flash1]);
        assert(w.ops@ =~= s0 + flash_ops(*dev));
    }
}

fn write_serial(w: &mut OpWriter)
    requires
        old(w).wf(),
    ensures
        final(w).wf(),
        final(w).ops@ == old(w).ops@ + serial_ops(),
{
    let ghost s0 = w.ops@;
    let name = hex_node_name("serial@", VIRT_UART_BASE);
    w.begin(name.as_slice());
    w.prop_str("compatible", "ns16550a");
    let regs = [(VIRT_UART_BASE, VIRT_UART_SIZE)];
    w.reg(&regs);
    w.prop_u32("clock-frequency", 100_000_000);
    let irqs = [LOONGARCH_UART_PCH_IRQ, 4u32];
    w.prop_cells("interrupts", &irqs);
    w.prop_u32("interrupt-parent", 3);
    w.end();
    proof {
        assert(regs@ =~= seq![(VIRT_UART_BASE, VIRT_UART_SIZE)]);
        assert(irqs@ =~= seq![LOONGARCH_UART_PCH_IRQ, 4u32]);
        assert(w.ops@ =~= s0 + serial_ops());
    }
}

fn write_virtio(w: &mut OpWriter, present: bool)
    requires
        old(w).wf(),
    ensures
        final(w).wf(),
        final(w).ops@ == old(w).ops@ + virtio_ops(present),
{
    let ghost s0 = w.ops@;
    if present {
        let name = hex_node_name("virtio_mmio@", VIRT_VIRTIO_BASE);
        w.begin(name.as_slice());
        w.prop_str("compatible", "virtio,mmio");
        let regs = [(VIRT_VIRTIO_BASE, VIRT_VIRTIO_SIZE)];
        w.reg(&regs);
        let irqs = [LOONGARCH_VIRTIO_PCH_IRQ_BASE, 4u32];
        w.prop_cells("interrupts", &irqs);
        w.prop_u32("interrupt-parent", 3);
        w.end();
        proof {
            assert(regs@ =~= seq![(VIRT_VIRTIO_BASE, VIRT_VIRTIO_SIZE)]);
            assert(irqs@ =~= seq![LOONGARCH_VIRTIO_PCH_IRQ_BASE, 4u32]);
        }
    }
    proof {

        assert(w.ops@ =~= s0 + virtio_ops(present));
    }
}

/// Build the device tree of the `virt` board for a direct kernel boot:
/// the chosen node (random seed, command line, console, initrd), one
/// node per CPU, the interrupt controllers, the usable low RAM, and the
/// board devices.
pub fn build_fdt(
    cmdline: &str,
    ram_size: u64,
    cpu_count: u32,
    initrd: Option<(u64, u64)>,
    has_virtio_mmio: bool,
    rng_seed: &[u8],
    low: &LowRamLayout,
    dev: &VirtFdtLayout,
) -> (r: Vec<u8>)
    requires
        initrd matches Some(p) ==> p.0 + p.1 <= u64::MAX,
    ensures
        exists|u: Seq<(u64, u64)>|
            #[trigger] usable_low_ram(u, ram_size, cpu_count, *low) && r@ == ops_blob(
                virt_fdt_ops(cmdline.spec_bytes(), rng_seed@, initrd, cpu_count, u, has_virtio_mmio, *dev),
            ),
{
    let mut w = OpWriter::new();
    write_root(&mut w);
    write_chosen(&mut w, cmdline, rng_seed, initrd);
    write_cpus(&mut w, cpu_count);
    write_cpuic(&mut w);
    let usable = low_ram_usable_ranges(ram_size, cpu_count, low);
    write_memory(&mut w, usable.as_slice());
    write_fw_cfg(&mut w, dev);
    write_ipi(&mut w);
    write_eiointc(&mut w);
    write_platic(&mut w);
    write_msi(&mut w, dev);
    write_rtc(&mut w, dev);
    write_isa(&mut w, dev);
    write_flash(&mut w, dev);
    write_serial(&mut w);
    write_virtio(&mut w, has_virtio_mmio);
    write_close(&mut w);
    proof {
        assert(w.ops@ == virt_fdt_ops(
            cmdline.spec_bytes(),
            rng_seed@,
            initrd,
            cpu_count,
            usable@,
            has_virtio_mmio,
            *dev,
        ));
        assert(usable_low_ram(usable@, ram_size, cpu_count, *low));
    }
    w.finish()
}


pub const DEVICE_TREE_GUID: [u8; 16] = [
    0xd5, 0x21, 0xb6, 0xb1, 0x9c, 0xf1, 0xa5, 0x41, 0x83, 0x0b, 0xd9, 0x15, 0x2c, 0x69, 0xaa, 0xe0,
];
pub const LINUX_EFI_BOOT_MEMMAP_GUID: [u8; 16] = [
    0x3f, 0x68, 0x0f, 0x80, 0x8b, 0xd0, 0x3a, 0x42, 0xa2, 0x93, 0x96, 0x5c, 0x3c, 0x6f, 0xe2, 0xb4,
];
pub const LINUX_EFI_INITRD_MEDIA_GUID: [u8; 16] = [
    0x27, 0xe4, 0x68, 0x55, 0xfc, 0x68, 0x3d, 0x4f, 0xac, 0x74, 0xca, 0x55, 0x52, 0x31, 0xcc, 0x68,
];

/// The boot parameter block of a direct kernel boot: what to write into
/// guest RAM, in order, where the initrd's bytes go, and the addresses
/// the kernel is started with.
pub struct BootParamsPlan {
    /// `(guest address, bytes)` of each write, in order.
    pub writes: Vec<(u64, Vec<u8>)>,
    /// Where the initrd's bytes go, if there is one.
    pub initrd: Option<GuestRange>,
    pub cmdline_addr: u64,
    pub system_table_addr: u64,
}

/// The physical address of guest address `a`.
pub open spec fn phys(a: int) -> u64 {
    (a % 0x1000_0000_0000_0000) as u64
}

/// `t` is an EFI system table with `nr` configuration tables at `cfg`.
pub open spec fn efi_system_table_bytes(t: Seq<u8>, nr: u64, cfg: u64) -> bool {
    &&& t.len() == EFI_SYSTEM_TABLE_SIZE
    &&& t.subrange(0, 8) == le_bytes(EFI_SYSTEM_TABLE_SIGNATURE as nat, 8)
    &&& t.subrange(8, 12) == le_bytes(EFI_SPECIFICATION_VERSION as nat, 4)
    &&& t.subrange(12, 16) == le_bytes(EFI_SYSTEM_TABLE_SIZE as nat, 4)
    &&& t.subrange(32, 36) == le_bytes(0x0001_0000, 4)
    &&& t.subrange(104, 112) == le_bytes(nr as nat, 8)
    &&& t.subrange(112, 120) == le_bytes(cfg as nat, 8)
    &&& forall|i: int| (16 <= i < 32 || 36 <= i < 104) ==> #[trigger] t[i] == 0u8
}

/// `m` is the EFI boot memory map of `ram_size` bytes of RAM for
/// `cpu_count` CPUs.
pub open spec fn boot_memmap_bytes(m: Seq<u8>, ram_size: u64, cpu_count: u32, low: LowRamLayout) -> bool {
    exists|d: Seq<(u64, u64, u32)>|
        memmap_tiles(
            d,
            page_down(ram_size as int),
            reserved_candidates(low.windows@, low.legacy_ipi_base, low.legacy_ipi_stride, cpu_count),
        ) && m == memmap_header(d.len()) + descs_bytes(d)
}

/// The ranges an initrd must avoid: the kernel's, and the secondary
/// boot code's when there is more than one CPU.
pub open spec fn initrd_avoid(kernel_ranges: Seq<GuestRange>, ram_size: u64, cpu_count: u32) -> Seq<GuestRange> {
    if cpu_count > 1 {
        match in_ram_spec(crate::loongarch_boot::SECONDARY_BOOT_ENTRY, 4096, ram_size, RangeLabel::SecondaryBoot) {
            Ok(g) => kernel_ranges.push(g),
            Err(_) => kernel_ranges,
        }
    } else {
        kernel_ranges
    }
}

/// The configuration table entries: boot memory map, initrd table (when
/// there is an initrd), device tree.
pub open spec fn config_entries(base: u64, has_initrd: bool) -> Seq<u8> {
    LINUX_EFI_BOOT_MEMMAP_GUID@ + le_bytes(phys(base + BOOT_MEMMAP_OFFSET) as nat, 8) + (if has_initrd {
        LINUX_EFI_INITRD_MEDIA_GUID@ + le_bytes(phys(base + BOOT_INITRD_TABLE_OFFSET) as nat, 8)
    } else {
        Seq::empty()
    }) + DEVICE_TREE_GUID@ + le_bytes(phys(base + BOOT_FDT_OFFSET) as nat, 8)
}

/// The boot-parameter window at the top of `ram_size` bytes of RAM.
pub open spec fn boot_window(ram_size: u64) -> GuestRange {
    let base = (spec_ram_end(ram_size) - BOOT_PARAM_WINDOW_SIZE) as u64;
    GuestRange { start: base, end: (base + BOOT_PARAM_WINDOW_SIZE) as u64, label: RangeLabel::BootData }
}

/// The checks of a boot-parameter plan that come before the device tree
/// is built, in the order they are made: RAM large enough and within
/// the address space, the window clear of the kernel, the command line
/// short enough, the secondary boot page in RAM, and a slot for the
/// initrd. On success, the initrd's physical address and length.
#[verifier::opaque]
pub open spec fn boot_params_precheck(
    cmdline: Seq<u8>,
    ram_size: u64,
    cpu_count: u32,
    initrd_len: Option<u64>,
    kernel_ranges: Seq<GuestRange>,
) -> Result<Option<(u64, u64)>, BootError> {
    let window = boot_window(ram_size);
    if ram_size < BOOT_PARAM_WINDOW_SIZE {
        Err(BootError::RamTooSmall)
    } else if spec_ram_end(ram_size) > u64::MAX {
        Err(BootError::RamSizeOverflow)
    } else if first_overlap(window, kernel_ranges) is Some {
        Err(BootError::Overlap { range: window, other: kernel_ranges[first_overlap(window, kernel_ranges)->0] })
    } else if cmdline.len() >= COMMAND_LINE_SIZE {
        Err(BootError::CommandLineTooLong(cmdline.len() as usize))
    } else if cpu_count > 1 && in_ram_spec(
        crate::loongarch_boot::SECONDARY_BOOT_ENTRY,
        4096,
        ram_size,
        RangeLabel::SecondaryBoot,
    ) is Err {
        Err(
            in_ram_spec(
                crate::loongarch_boot::SECONDARY_BOOT_ENTRY,
                4096,
                ram_size,
                RangeLabel::SecondaryBoot,
            )->Err_0,
        )
    } else {
        match initrd_len {
            None => Ok(None),
            Some(n) => {
                let l = if n == 0 { 1 } else { n };
                if l + 4095 > u64::MAX {
                    Err(BootError::AlignOverflow)
                } else {
                    match initrd_search(
                        window.start,
                        page_down(l + 4095) as u64,
                        ram_size,
                        initrd_avoid(kernel_ranges, ram_size, cpu_count),
                    ) {
                        Err(e) => Err(e),
                        Ok(g) => Ok(Some((phys(g.start as int), n))),
                    }
                }
            },
        }
    }
}

/// The outcome of a boot-parameter plan whose checks before the device
/// tree passed, for a device tree of `fdt_len` bytes and a boot memory
/// map of `memmap_len` bytes: the tree must fit below the system table,
/// an initrd handed to fw_cfg must fit its 32-bit size field, and the
/// memory map must end within RAM.
pub open spec fn boot_params_final(
    fdt_len: int,
    memmap_len: int,
    ram_size: u64,
    fw_cfg: bool,
    initrd_len: Option<u64>,
) -> Result<(), BootError> {
    if fdt_len > BOOT_SYSTEM_TABLE_OFFSET - BOOT_FDT_OFFSET {
        Err(BootError::FdtTooLarge(fdt_len as usize))
    } else if fw_cfg && (initrd_len matches Some(n) && n > u32::MAX) {
        Err(BootError::FwCfgTooLarge(RangeLabel::Initrd))
    } else {
        ram_range_check(
            (boot_window(ram_size).start + BOOT_MEMMAP_OFFSET) as u64,
            memmap_len as u64,
            ram_size,
            RangeLabel::BootMemmap,
        )
    }
}

/// The device tree of a direct boot with usable low RAM `u`.
#[verifier::opaque]
pub open spec fn boot_fdt_bytes(
    cmdline: Seq<u8>,
    seed: Seq<u8>,
    initrd: Option<(u64, u64)>,
    cpu_count: u32,
    u: Seq<(u64, u64)>,
    has_virtio_mmio: bool,
    dev: VirtFdtLayout,
) -> Seq<u8> {
    ops_blob(virt_fdt_ops(cmdline, seed, initrd, cpu_count, u, has_virtio_mmio, dev))
}

/// The size of the device tree of a direct boot with usable low RAM `u`.
pub open spec fn boot_fdt_len(
    cmdline: Seq<u8>,
    seed: Seq<u8>,
    initrd: Option<(u64, u64)>,
    cpu_count: u32,
    u: Seq<(u64, u64)>,
    has_virtio_mmio: bool,
    dev: VirtFdtLayout,
) -> int {
    boot_fdt_bytes(cmdline, seed, initrd, cpu_count, u, has_virtio_mmio, dev).len() as int
}

/// `r` is what [`boot_params_final`] gives: its error, or a plan.
pub open spec fn final_outcome_is(r: Result<BootParamsPlan, BootError>, o: Result<(), BootError>) -> bool {
    match o {
        Err(e) => (r matches Err(x) && x == e),
        Ok(_) => r is Ok,
    }
}

proof fn lemma_initrd_search_len(end: u64, len: u64, ram_size: u64, reserved: Seq<GuestRange>)
    ensures
        initrd_search(end, len, ram_size, reserved) matches Ok(g) ==> g.end - g.start == len
            && g.start >= VIRT_RAM_BASE && g.end <= end,
        initrd_search(end, len, ram_size, reserved) matches Err(e) ==> !(e is CommandLineTooLong)
            && !(e is FdtTooLarge) && !(e is FwCfgTooLarge),
    decreases end,
{
    if end < len {
    } else if end - len < VIRT_RAM_BASE {
    } else {
        match in_ram_spec((end - len) as u64, len, ram_size, RangeLabel::Initrd) {
            Err(e) => {},
            Ok(range) => match first_overlap(range, reserved) {
                None => {},
                Some(i) => {
                    let next_end = page_down(reserved[i].start as int);
                    if next_end < end {
                        lemma_initrd_search_len(next_end as u64, len, ram_size, reserved);
                    }
                },
            },
        }
    }
}

/// A copy of `v`.
fn copy_ranges(v: &[GuestRange]) -> (r: Vec<GuestRange>)
    ensures
        r@ == v@,
{
    let mut out: Vec<GuestRange> = Vec::new();
    let mut i: usize = 0;
    while i < v.len()
        invariant
            i <= v.len(),
            out@ == v@.take(i as int),
        decreases v.len() - i,
    {
        out.push(v[i]);
        i = i + 1;
        proof {
            assert(out@ =~= v@.take(i as int));
        }
    }
    proof {
        assert(v@.take(v@.len() as int) =~= v@);
    }
    out
}

/// Check that `data` fits guest RAM at `addr` and queue it.
fn queue_write(writes: &mut Vec<(u64, Vec<u8>)>, addr: u64, data: Vec<u8>, ram_size: u64, label: RangeLabel) -> (r: Result<(), BootError>)
    ensures
        r == ram_range_check(addr, data@.len() as u64, ram_size, label),
        r is Ok ==> final(writes)@ == old(writes)@.push((addr, data)),
        r is Err ==> final(writes)@ == old(writes)@,
{
    ensure_ram_range(addr, data.len() as u64, ram_size, label)?;
    writes.push((addr, data));
    Ok(())
}

/// The checks of a boot-parameter plan made before the device tree is
/// built; on success the window's base and the initrd's slot.
fn boot_params_prechecks(
    cmdline: &str,
    ram_size: u64,
    cpu_count: u32,
    initrd_len: Option<u64>,
    kernel_ranges: &[GuestRange],
) -> (r: Result<(u64, Option<GuestRange>), BootError>)
    ensures
        boot_params_precheck(cmdline.spec_bytes(), ram_size, cpu_count, initrd_len, kernel_ranges@) matches Err(e)
            ==> r == Err::<(u64, Option<GuestRange>), BootError>(e),
        r is Ok <==> boot_params_precheck(cmdline.spec_bytes(), ram_size, cpu_count, initrd_len, kernel_ranges@) is Ok,
        r matches Ok((base, g)) ==> ({
            let window = GuestRange { start: base, end: (base + BOOT_PARAM_WINDOW_SIZE) as u64, label: RangeLabel::BootData };
            &&& ram_size >= BOOT_PARAM_WINDOW_SIZE
            &&& spec_ram_end(ram_size) <= u64::MAX
            &&& base == spec_ram_end(ram_size) - BOOT_PARAM_WINDOW_SIZE
            &&& window == boot_window(ram_size)
            &&& forall|i: int| 0 <= i < kernel_ranges@.len() ==> !ranges_overlap(window, #[trigger] kernel_ranges@[i])
            &&& cmdline.spec_bytes().len() < COMMAND_LINE_SIZE
            &&& (g is Some <==> initrd_len is Some)
            &&& (initrd_len matches Some(n) ==> {
                let l = if n == 0 { 1 } else { n };
                &&& l + 4095 <= u64::MAX
                &&& initrd_search(base, page_down(l + 4095) as u64, ram_size, initrd_avoid(kernel_ranges@, ram_size, cpu_count)) == Ok::<GuestRange, BootError>(g->0)
                &&& g->0.end - g->0.start == page_down(l + 4095)
                &&& g->0.start >= VIRT_RAM_BASE
                &&& g->0.end <= base
                &&& boot_params_precheck(cmdline.spec_bytes(), ram_size, cpu_count, initrd_len, kernel_ranges@)
                    == Ok::<Option<(u64, u64)>, BootError>(Some((phys(g->0.start as int), n)))
            })
            &&& initrd_len is None ==> boot_params_precheck(cmdline.spec_bytes(), ram_size, cpu_count, initrd_len, kernel_ranges@)
                == Ok::<Option<(u64, u64)>, BootError>(None)
        }),
{
    reveal(boot_params_precheck);
    let base = boot_param_base(ram_size)?;
    let window = GuestRange::in_ram(base, BOOT_PARAM_WINDOW_SIZE, ram_size, RangeLabel::BootData)?;
    assert(window == boot_window(ram_size));
    let ro = reject_overlap(window, kernel_ranges);
    match ro {
        Ok(()) => {
            proof {
                if first_overlap(window, kernel_ranges@) is Some {
                    let i = first_overlap(window, kernel_ranges@)->0;
                    assert(ranges_overlap(window, kernel_ranges@[i]));
                }
            }
        },
        Err(e) => {
            proof {
                let i = choose|i: int|
                    0 <= i < kernel_ranges@.len() && ranges_overlap(window, #[trigger] kernel_ranges@[i])
                        && e == (BootError::Overlap { range: window, other: kernel_ranges@[i] }) && forall|j: int|
                        0 <= j < i ==> !ranges_overlap(window, #[trigger] kernel_ranges@[j]);
                lemma_first_overlap_exists(window, kernel_ranges@);
                let f = first_overlap(window, kernel_ranges@)->0;
                if f < i {
                    assert(!ranges_overlap(window, kernel_ranges@[f]));
                } else if f > i {
                    assert(!ranges_overlap(window, kernel_ranges@[i]));
                }
            }
            return Err(e);
        },
    }
    let cmd = cmdline.as_bytes();
    if cmd.len() >= COMMAND_LINE_SIZE {
        return Err(BootError::CommandLineTooLong(cmd.len()));
    }
    let mut reserved = copy_ranges(kernel_ranges);
    match secondary_boot_reserved_range(ram_size, cpu_count)? {
        Some(g) => {
            reserved.push(g);
        },
        None => {},
    }
    proof {
        assert(reserved@ == initrd_avoid(kernel_ranges@, ram_size, cpu_count));
    }
    let initrd_range = match initrd_len {
        Some(len) => {
            proof {
                let l = if len == 0 { 1u64 } else { len };
                lemma_initrd_search_len(base, page_down(l + 4095) as u64, ram_size, reserved@);
            }
            let g = plan_initrd(len, ram_size, base, reserved.as_slice())?;
            Some(g)
        },
        None => None,
    };
    Ok((base, initrd_range))
}

/// The initrd's physical address and length for a slot `g` of an
/// initrd of `initrd_len` bytes.
pub open spec fn initrd_phys_of(g: Option<GuestRange>, initrd_len: Option<u64>) -> Option<(u64, u64)> {
    match g {
        Some(r) => Some((phys(r.start as int), initrd_len->0)),
        None => None,
    }
}

/// Build the device tree and the boot memory map of a direct boot, and
/// check what must hold of them and of the initrd: the tree fits below
/// the system table, an initrd handed to fw_cfg fits its 32-bit size
/// field, and the memory map ends within RAM. The ghost results are the
/// usable low RAM the tree describes and the memory map's bytes.
fn checked_boot_tables(
    cmdline: &str,
    ram_size: u64,
    cpu_count: u32,
    initrd: Option<(u64, u64)>,
    has_virtio_mmio: bool,
    rng_seed: &[u8],
    low: &LowRamLayout,
    dev: &VirtFdtLayout,
    fw_cfg: bool,
    initrd_len: Option<u64>,
) -> (r: (Result<(Vec<u8>, Vec<u8>), BootError>, Ghost<Seq<(u64, u64)>>, Ghost<Seq<u8>>))
    requires
        initrd matches Some(p) ==> p.0 + p.1 <= u64::MAX,
        low.windows@.len() < 0x1000_0000,
        ram_size >= BOOT_PARAM_WINDOW_SIZE,
        spec_ram_end(ram_size) <= u64::MAX,
    ensures
        usable_low_ram(r.1@, ram_size, cpu_count, *low),
        boot_memmap_bytes(r.2@, ram_size, cpu_count, *low),
        match boot_params_final(
            boot_fdt_len(cmdline.spec_bytes(), rng_seed@, initrd, cpu_count, r.1@, has_virtio_mmio, *dev),
            r.2@.len() as int,
            ram_size,
            fw_cfg,
            initrd_len,
        ) {
            Err(e) => (r.0 matches Err(x) && x == e),
            Ok(_) => (r.0 matches Ok(t) && t.0@ == boot_fdt_bytes(
                cmdline.spec_bytes(),
                rng_seed@,
                initrd,
                cpu_count,
                r.1@,
                has_virtio_mmio,
                *dev,
            ) && t.1@ == r.2@),
        },
{
    let fdt = build_fdt(cmdline, ram_size, cpu_count, initrd, has_virtio_mmio, rng_seed, low, dev);
    let ghost u = choose|u: Seq<(u64, u64)>|
        #[trigger] usable_low_ram(u, ram_size, cpu_count, *low) && fdt@ == ops_blob(
            virt_fdt_ops(cmdline.spec_bytes(), rng_seed@, initrd, cpu_count, u, has_virtio_mmio, *dev),
        );
    let memmap = build_boot_memmap(ram_size, cpu_count, low);
    proof {
        assert(usable_low_ram(u, ram_size, cpu_count, *low));
        assert(boot_fdt_bytes(cmdline.spec_bytes(), rng_seed@, initrd, cpu_count, u, has_virtio_mmio, *dev) == fdt@) by {
            reveal(boot_fdt_bytes);
        }
        assert(boot_memmap_bytes(memmap@, ram_size, cpu_count, *low));
    }
    if fdt.len() as u64 > BOOT_SYSTEM_TABLE_OFFSET - BOOT_FDT_OFFSET {
        return (Err(BootError::FdtTooLarge(fdt.len())), Ghost(u), Ghost(memmap@));
    }
    if fw_cfg {
        match initrd_len {
            Some(n) => {
                if n > 0xffff_ffff {
                    return (Err(BootError::FwCfgTooLarge(RangeLabel::Initrd)), Ghost(u), Ghost(memmap@));
                }
            },
            None => {},
        }
    }
    let memmap_guest = (VIRT_RAM_BASE + ram_size - BOOT_PARAM_WINDOW_SIZE) + BOOT_MEMMAP_OFFSET;
    match ensure_ram_range(memmap_guest, memmap.len() as u64, ram_size, RangeLabel::BootMemmap) {
        Ok(()) => {},
        Err(e) => {
            return (Err(e), Ghost(u), Ghost(memmap@));
        },
    }
    let ghost m = memmap@;
    (Ok((fdt, memmap)), Ghost(u), Ghost(m))
}

/// Build the device tree and the tables of a boot-parameter block whose
/// window starts at `base`, with the initrd in `initrd_range`.
#[verifier::spinoff_prover]
#[verifier::rlimit(100)]
fn assemble_boot_parameters(
    cmdline: &str,
    ram_size: u64,
    cpu_count: u32,
    has_virtio_mmio: bool,
    initrd_len: Option<u64>,
    fw_cfg: bool,
    rng_seed: &[u8],
    low: &LowRamLayout,
    dev: &VirtFdtLayout,
    base: u64,
    initrd_range: Option<GuestRange>,
) -> (r: (Result<BootParamsPlan, BootError>, Ghost<Seq<(u64, u64)>>, Ghost<Seq<u8>>))
    requires
        low.windows@.len() < 0x1000_0000,
        ram_size >= BOOT_PARAM_WINDOW_SIZE,
        spec_ram_end(ram_size) <= u64::MAX,
        base == spec_ram_end(ram_size) - BOOT_PARAM_WINDOW_SIZE,
        cmdline.spec_bytes().len() < COMMAND_LINE_SIZE,
        initrd_range is Some <==> initrd_len is Some,
        initrd_len matches Some(n) ==> {
            let l = if n == 0 { 1 } else { n };
            &&& initrd_range->0.end - initrd_range->0.start == page_down(l + 4095)
            &&& l + 4095 <= u64::MAX
            &&& initrd_range->0.start >= VIRT_RAM_BASE
            &&& initrd_range->0.end <= base
        },
    ensures
        usable_low_ram(r.1@, ram_size, cpu_count, *low),
        boot_memmap_bytes(r.2@, ram_size, cpu_count, *low),
        final_outcome_is(
            r.0,
            boot_params_final(
                boot_fdt_len(cmdline.spec_bytes(), rng_seed@, initrd_phys_of(initrd_range, initrd_len), cpu_count, r.1@, has_virtio_mmio, *dev),
                r.2@.len() as int,
                ram_size,
                fw_cfg,
                initrd_len,
            ),
        ),
        r.0 matches Ok(p) ==> ({
            let k0: int = if initrd_len is Some { 1 } else { 0 };
            let initrd_phys = initrd_phys_of(p.initrd, initrd_len);
            &&& p.initrd == initrd_range
            &&& p.cmdline_addr == phys(base as int)
            &&& p.system_table_addr == phys(base + BOOT_SYSTEM_TABLE_OFFSET)
            &&& (initrd_len matches Some(n) ==> !fw_cfg || n <= u32::MAX)
            &&& p.writes@.len() == k0 + 5
            &&& (initrd_phys matches Some(ip) ==> p.writes@[0].0 == base + BOOT_INITRD_TABLE_OFFSET
                && p.writes@[0].1@ == le_bytes(ip.0 as nat, 8) + le_bytes(ip.1 as nat, 8))
            &&& p.writes@[k0].0 == base && p.writes@[k0].1@ == cmdline.spec_bytes() + seq![0u8]
            &&& p.writes@[k0 + 1].0 == base + BOOT_FDT_OFFSET
            &&& p.writes@[k0 + 1].1@.len() <= BOOT_SYSTEM_TABLE_OFFSET - BOOT_FDT_OFFSET
            &&& (exists|u: Seq<(u64, u64)>| #[trigger] usable_low_ram(u, ram_size, cpu_count, *low)
                && p.writes@[k0 + 1].1@ == boot_fdt_bytes(cmdline.spec_bytes(), rng_seed@, initrd_phys, cpu_count, u, has_virtio_mmio, *dev))
            &&& p.writes@[k0 + 2].0 == base + BOOT_SYSTEM_TABLE_OFFSET
            &&& efi_system_table_bytes(p.writes@[k0 + 2].1@, (k0 + 2) as u64, phys(base + BOOT_CONFIG_TABLE_OFFSET))
            &&& p.writes@[k0 + 3].0 == base + BOOT_CONFIG_TABLE_OFFSET
            &&& p.writes@[k0 + 3].1@ == config_entries(base, initrd_len is Some)
            &&& p.writes@[k0 + 4].0 == base + BOOT_MEMMAP_OFFSET
            &&& boot_memmap_bytes(p.writes@[k0 + 4].1@, ram_size, cpu_count, *low)
        }),
{
    let cmdline_guest = base;
    let fdt_guest = base + BOOT_FDT_OFFSET;
    let system_table_guest = base + BOOT_SYSTEM_TABLE_OFFSET;
    let config_table_guest = base + BOOT_CONFIG_TABLE_OFFSET;
    let memmap_guest = base + BOOT_MEMMAP_OFFSET;
    let initrd_table_guest = base + BOOT_INITRD_TABLE_OFFSET;
    let cmd = cmdline.as_bytes();
    let initrd: Option<(u64, u64)> = match initrd_range {
        Some(g) => Some((crate::loongarch_boot::boot_phys_addr(g.start), initrd_len.unwrap())),
        None => None,
    };
    proof {
        if initrd_range is Some {
            let g = initrd_range->0;
            let n = initrd_len->0;
            let l: int = if n == 0 { 1 } else { n as int };
            let x = l + 4095;
            assert(x % 4096 < 4096);
            assert(page_down(x) >= n);
            let st = g.start as int;
            assert(st % 0x1000_0000_0000_0000 <= st);
            assert((initrd->0).0 <= g.start);
        }
    }
    let (checked, gu, gm) = checked_boot_tables(
        cmdline,
        ram_size,
        cpu_count,
        initrd,
        has_virtio_mmio,
        rng_seed,
        low,
        dev,
        fw_cfg,
        initrd_len,
    );
    let ghost u = gu@;
    proof {
        assert(initrd == initrd_phys_of(initrd_range, initrd_len));
    }
    let (fdt, memmap) = match checked {
        Ok(t) => t,
        Err(e) => {
            return (Err(e), gu, gm);
        },
    };
    proof {
        assert(fdt@.len() <= BOOT_SYSTEM_TABLE_OFFSET - BOOT_FDT_OFFSET);
    }
    let mut entries: Vec<u8> = Vec::new();
    append_config_table(&mut entries, LINUX_EFI_BOOT_MEMMAP_GUID, crate::loongarch_boot::boot_phys_addr(memmap_guest));
    let mut writes: Vec<(u64, Vec<u8>)> = Vec::new();
    let mut nr: u64 = 2;
    match initrd {
        Some(t) => {
            append_config_table(&mut entries, LINUX_EFI_INITRD_MEDIA_GUID, crate::loongarch_boot::boot_phys_addr(initrd_table_guest));
            let table = build_initrd_table(t);
            proof {
                crate::bytes::lemma_le_bytes_len(t.0 as nat, 8);
                crate::bytes::lemma_le_bytes_len(t.1 as nat, 8);
            }
            assert(ram_range_check(initrd_table_guest, table@.len() as u64, ram_size, RangeLabel::InitrdTable) is Ok);
            match queue_write(&mut writes, initrd_table_guest, table, ram_size, RangeLabel::InitrdTable) {
                Ok(()) => {},
                Err(e) => {
                    return (Err(e), gu, gm);
                },
            }
            nr = 3;
        },
        None => {},
    }
    append_config_table(&mut entries, DEVICE_TREE_GUID, crate::loongarch_boot::boot_phys_addr(fdt_guest));
    let system_table = build_efi_system_table(nr, crate::loongarch_boot::boot_phys_addr(config_table_guest));
    let mut args: Vec<u8> = Vec::new();
    push_all(&mut args, cmd);
    args.push(0);
    assert(ram_range_check(cmdline_guest, args@.len() as u64, ram_size, RangeLabel::CommandLine) is Ok);
    match queue_write(&mut writes, cmdline_guest, args, ram_size, RangeLabel::CommandLine) {
        Ok(()) => {},
        Err(e) => {
            return (Err(e), gu, gm);
        },
    }
    assert(ram_range_check(fdt_guest, fdt@.len() as u64, ram_size, RangeLabel::Fdt) is Ok);
    match queue_write(&mut writes, fdt_guest, fdt, ram_size, RangeLabel::Fdt) {
        Ok(()) => {},
        Err(e) => {
            return (Err(e), gu, gm);
        },
    }
    assert(ram_range_check(system_table_guest, system_table@.len() as u64, ram_size, RangeLabel::SystemTable) is Ok);
    match queue_write(&mut writes, system_table_guest, system_table, ram_size, RangeLabel::SystemTable) {
        Ok(()) => {},
        Err(e) => {
            return (Err(e), gu, gm);
        },
    }
    proof {
        assert(entries@ =~= config_entries(base, initrd_len is Some));
        crate::bytes::lemma_le_bytes_len(phys(base + BOOT_MEMMAP_OFFSET) as nat, 8);
        crate::bytes::lemma_le_bytes_len(phys(base + BOOT_INITRD_TABLE_OFFSET) as nat, 8);
        crate::bytes::lemma_le_bytes_len(phys(base + BOOT_FDT_OFFSET) as nat, 8);
        assert(entries@.len() <= 72);
    }
    assert(ram_range_check(config_table_guest, entries@.len() as u64, ram_size, RangeLabel::ConfigTable) is Ok);
    match queue_write(&mut writes, config_table_guest, entries, ram_size, RangeLabel::ConfigTable) {
        Ok(()) => {},
        Err(e) => {
            return (Err(e), gu, gm);
        },
    }
    assert(ram_range_check(memmap_guest, memmap@.len() as u64, ram_size, RangeLabel::BootMemmap) is Ok);
    match queue_write(&mut writes, memmap_guest, memmap, ram_size, RangeLabel::BootMemmap) {
        Ok(()) => {},
        Err(e) => {
            return (Err(e), gu, gm);
        },
    }
    proof {
        assert(config_entries(base, initrd_len is Some) =~= writes@[writes@.len() - 2].1@);
    }
    (
        Ok(
            BootParamsPlan {
                writes,
                initrd: initrd_range,
                cmdline_addr: crate::loongarch_boot::boot_phys_addr(cmdline_guest),
                system_table_addr: crate::loongarch_boot::boot_phys_addr(system_table_guest),
            },
        ),
        gu,
        gm,
    )
}

/// Plan the boot parameter block of a direct kernel boot at the top of
/// RAM: the kernel command line, the device tree, the EFI system table
/// with its configuration tables, the boot memory map, and the initrd
/// (of `initrd_len` bytes, placed below the block and away from the
/// kernel and the secondary boot code). `fw_cfg` says whether the
/// initrd is also handed to fw_cfg, whose size field is 32 bits wide.
#[verifier::spinoff_prover]
#[verifier::rlimit(100)]
pub fn write_boot_parameters(
    cmdline: &str,
    ram_size: u64,
    cpu_count: u32,
    has_virtio_mmio: bool,
    initrd_len: Option<u64>,
    fw_cfg: bool,
    kernel_ranges: &[GuestRange],
    rng_seed: &[u8],
    low: &LowRamLayout,
    dev: &VirtFdtLayout,
) -> (r: Result<BootParamsPlan, BootError>)
    requires
        low.windows@.len() < 0x1000_0000,
    ensures
        boot_params_precheck(cmdline.spec_bytes(), ram_size, cpu_count, initrd_len, kernel_ranges@) matches Err(e)
            ==> (r matches Err(x) && x == e),
        boot_params_precheck(cmdline.spec_bytes(), ram_size, cpu_count, initrd_len, kernel_ranges@) matches Ok(ip)
            ==> exists|u: Seq<(u64, u64)>, m: Seq<u8>|
            #![trigger usable_low_ram(u, ram_size, cpu_count, *low), boot_memmap_bytes(m, ram_size, cpu_count, *low)]
            usable_low_ram(u, ram_size, cpu_count, *low) && boot_memmap_bytes(m, ram_size, cpu_count, *low)
                && final_outcome_is(
                r,
                boot_params_final(
                    boot_fdt_len(cmdline.spec_bytes(), rng_seed@, ip, cpu_count, u, has_virtio_mmio, *dev),
                    m.len() as int,
                    ram_size,
                    fw_cfg,
                    initrd_len,
                ),
            ),
        r matches Ok(p) ==> ({
            let base = (spec_ram_end(ram_size) - BOOT_PARAM_WINDOW_SIZE) as u64;
            let window = GuestRange { start: base, end: (base + BOOT_PARAM_WINDOW_SIZE) as u64, label: RangeLabel::BootData };
            let k0: int = if initrd_len is Some { 1 } else { 0 };
            let initrd_phys = match p.initrd {
                Some(g) => Some((phys(g.start as int), initrd_len->0)),
                None => None,
            };
            &&& ram_size >= BOOT_PARAM_WINDOW_SIZE
            &&& spec_ram_end(ram_size) <= u64::MAX
            &&& forall|i: int| 0 <= i < kernel_ranges@.len() ==> !ranges_overlap(window, #[trigger] kernel_ranges@[i])
            &&& cmdline.spec_bytes().len() < COMMAND_LINE_SIZE
            &&& p.cmdline_addr == phys(base as int)
            &&& p.system_table_addr == phys(base + BOOT_SYSTEM_TABLE_OFFSET)
            &&& (p.initrd is Some <==> initrd_len is Some)
            &&& (initrd_len matches Some(n) ==> {
                let l = if n == 0 { 1 } else { n };
                &&& l + 4095 <= u64::MAX
                &&& initrd_search(base, page_down(l + 4095) as u64, ram_size, initrd_avoid(kernel_ranges@, ram_size, cpu_count)) == Ok::<GuestRange, BootError>(p.initrd->0)
                &&& !fw_cfg || n <= u32::MAX
            })
            &&& p.writes@.len() == k0 + 5
            &&& (initrd_phys matches Some(ip) ==> p.writes@[0].0 == base + BOOT_INITRD_TABLE_OFFSET
                && p.writes@[0].1@ == le_bytes(ip.0 as nat, 8) + le_bytes(ip.1 as nat, 8))
            &&& p.writes@[k0].0 == base && p.writes@[k0].1@ == cmdline.spec_bytes() + seq![0u8]
            &&& p.writes@[k0 + 1].0 == base + BOOT_FDT_OFFSET
            &&& p.writes@[k0 + 1].1@.len() <= BOOT_SYSTEM_TABLE_OFFSET - BOOT_FDT_OFFSET
            &&& (exists|u: Seq<(u64, u64)>| #[trigger] usable_low_ram(u, ram_size, cpu_count, *low)
                && p.writes@[k0 + 1].1@ == boot_fdt_bytes(cmdline.spec_bytes(), rng_seed@, initrd_phys, cpu_count, u, has_virtio_mmio, *dev))
            &&& p.writes@[k0 + 2].0 == base + BOOT_SYSTEM_TABLE_OFFSET
            &&& efi_system_table_bytes(p.writes@[k0 + 2].1@, (k0 + 2) as u64, phys(base + BOOT_CONFIG_TABLE_OFFSET))
            &&& p.writes@[k0 + 3].0 == base + BOOT_CONFIG_TABLE_OFFSET
            &&& p.writes@[k0 + 3].1@ == config_entries(base, initrd_len is Some)
            &&& p.writes@[k0 + 4].0 == base + BOOT_MEMMAP_OFFSET
            &&& boot_memmap_bytes(p.writes@[k0 + 4].1@, ram_size, cpu_count, *low)
        }),
{
    let (base, initrd_range) = match boot_params_prechecks(cmdline, ram_size, cpu_count, initrd_len, kernel_ranges) {
        Ok(v) => v,
        Err(e) => {
            return Err(e);
        },
    };
    proof {
        assert(boot_params_precheck(cmdline.spec_bytes(), ram_size, cpu_count, initrd_len, kernel_ranges@)
            == Ok::<Option<(u64, u64)>, BootError>(initrd_phys_of(initrd_range, initrd_len)));
    }
    let (r, gu, gm) = assemble_boot_parameters(
        cmdline,
        ram_size,
        cpu_count,
        has_virtio_mmio,
        initrd_len,
        fw_cfg,
        rng_seed,
        low,
        dev,
        base,
        initrd_range,
    );
    proof {
        assert(usable_low_ram(gu@, ram_size, cpu_count, *low) && boot_memmap_bytes(gm@, ram_size, cpu_count, *low));
    }
    r
}

/// Where a Linux Image kernel goes: entry, ranges and load address.
pub open spec fn linux_image_plan(d: Seq<u8>, h: LinuxImageHeader, ram_size: u64) -> Result<
    (u64, Seq<GuestRange>, KernelLoadKind),
    BootError,
> {
    let len = if d.len() >= h.kernel_size {
        d.len() as u64
    } else {
        h.kernel_size
    };
    match normalize_spec(h.load_offset, ram_size, RangeLabel::LinuxImageLoadOffset) {
        Err(e) => Err(e),
        Ok(la) => match normalize_spec(h.kernel_entry, ram_size, RangeLabel::LinuxImageEntry) {
            Err(e) => Err(e),
            Ok(en) => match in_ram_spec(la, len, ram_size, RangeLabel::LinuxImage) {
                Err(e) => Err(e),
                Ok(g) => Ok((en, seq![g], KernelLoadKind::LinuxImage { load_addr: la })),
            },
        },
    }
}

/// Where a kernel image goes: as an ELF file when it starts with the
/// ELF magic, as a Linux Image when it starts with "MZ", else as raw
/// bytes at the default entry.
pub open spec fn kernel_plan_spec(d: Seq<u8>, ram_size: u64) -> Result<
    (u64, Seq<GuestRange>, KernelLoadKind),
    BootError,
> {
    if d.len() >= 4 && d[0] == 0x7fu8 && d[1] == 0x45u8 && d[2] == 0x4cu8 && d[3] == 0x46u8 {
        match elf_plan(d, VIRT_RAM_BASE, ram_size) {
            Ok(p) => Ok((p.0, p.1, KernelLoadKind::Elf)),
            Err(e) => Err(e),
        }
    } else {
        match linux_header_spec(d) {
            Err(e) => Err(e),
            Ok(Some(h)) => linux_image_plan(d, h, ram_size),
            Ok(None) => match in_ram_spec(KERNEL_ENTRY_DEFAULT, d.len() as u64, ram_size, RangeLabel::RawKernel) {
                Err(e) => Err(e),
                Ok(g) => Ok((KERNEL_ENTRY_DEFAULT, seq![g], KernelLoadKind::Raw)),
            },
        }
    }
}

/// Decide how a (decompressed) kernel image is loaded.
pub fn plan_kernel(kernel: &[u8], ram_size: u64) -> (r: Result<KernelLoadPlan, BootError>)
    ensures
        match kernel_plan_spec(kernel@, ram_size) {
            Ok(p) => r matches Ok(q) && q.entry == p.0 && q.ranges@ == p.1 && q.kind == p.2,
            Err(e) => r matches Err(e2) && e2 == e,
        },
{
    if is_elf(kernel) {
        analyze_elf_kernel(kernel, VIRT_RAM_BASE, ram_size)
    } else {
        match parse_linux_image_header(kernel)? {
            Some(header) => analyze_linux_image_kernel(kernel, header, ram_size),
            None => analyze_raw_kernel(kernel, ram_size),
        }
    }
}

/// What the kernel planned by `kernel` is started with, given its boot
/// parameter block.
pub fn direct_kernel_boot(kernel: &KernelLoadPlan, params: &BootParamsPlan) -> (r: DirectKernelBoot)
    ensures
        r.entry == kernel.entry,
        r.efi_boot == EFI_BOOT_MODE,
        r.cmdline_addr == params.cmdline_addr,
        r.system_table_addr == params.system_table_addr,
{
    DirectKernelBoot {
        entry: kernel.entry,
        efi_boot: EFI_BOOT_MODE,
        cmdline_addr: params.cmdline_addr,
        system_table_addr: params.system_table_addr,
    }
}

/// The reserved and the usable low-RAM regions split RAM: every address
/// below the page-aligned RAM size lies in exactly one of them.
pub proof fn lemma_low_ram_partition(
    reserved: Seq<(u64, u64)>,
    usable: Seq<(u64, u64)>,
    ram_size: u64,
    cpu_count: u32,
    low: LowRamLayout,
    a: int,
)
    requires
        forall|x: int|
            in_regions(reserved, x) <==> (x < page_down(ram_size as int) && in_windows(
                reserved_candidates(low.windows@, low.legacy_ipi_base, low.legacy_ipi_stride, cpu_count),
                x,
            )),
        usable_low_ram(usable, ram_size, cpu_count, low),
        0 <= a < page_down(ram_size as int),
    ensures
        in_regions(reserved, a) != in_regions(usable, a),
{
}

} // verus!
