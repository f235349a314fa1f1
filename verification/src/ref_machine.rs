//! The riscv64 reference board (QEMU virt layout): its memory map and
//! interrupt numbers, its device tree, and the SiFive test finisher that
//! ends a run.
use vstd::prelude::*;
use vstd::string::StringSliceAdditionalSpecFns;
pub use crate::k230::MemMapEntry;
use crate::k230::{IRQ_MEI, IRQ_SEI, IRQ_MTI, IRQ_MSI};
use crate::fdt::{be4, cells_be};
use crate::fdt_ops::{
    FdtOp, op_begin, op_prop, op_end, ops_blob, dec_text, str_val, hex_name, OpWriter, push_all,
    push_dec, hex_node_name,
};

verus! {

/// The regions of the reference board's memory map.
#[derive(Debug, Clone, Copy, PartialEq, Eq, Structural)]
pub enum RefMemMap {
    Mrom,
    SifiveTest,
    Rtc,
    Aclint,
    Plic,
    Uart0,
    FwCfg,
    Virtio,
    Dram,
    Count,
}

/// The reference memory map (RAM's size is the machine's; the `Count`
/// marker has an empty region).
pub open spec fn ref_region(r: RefMemMap) -> MemMapEntry {
    match r {
        RefMemMap::Mrom => MemMapEntry { base: 0x0000_1000, size: 0x0000_F000 },
        RefMemMap::SifiveTest => MemMapEntry { base: 0x0010_0000, size: 0x0000_1000 },
        RefMemMap::Rtc => MemMapEntry { base: 0x0010_1000, size: 0x0000_1000 },
        RefMemMap::Aclint => MemMapEntry { base: 0x0200_0000, size: 0x0001_0000 },
        RefMemMap::Plic => MemMapEntry { base: 0x0C00_0000, size: 0x0400_0000 },
        RefMemMap::Uart0 => MemMapEntry { base: 0x1000_0000, size: 0x0000_0100 },
        RefMemMap::FwCfg => MemMapEntry { base: 0x1010_0000, size: 0x0000_0018 },
        RefMemMap::Virtio => MemMapEntry { base: 0x1000_1000, size: 0x0000_1000 },
        RefMemMap::Dram => MemMapEntry { base: 0x8000_0000, size: 0 },
        RefMemMap::Count => MemMapEntry { base: 0, size: 0 },
    }
}

/// The base and size of region `r`.
pub fn ref_memmap(r: RefMemMap) -> (e: MemMapEntry)
    ensures
        e == ref_region(r),
{
    match r {
        RefMemMap::Mrom => MemMapEntry { base: 0x0000_1000, size: 0x0000_F000 },
        RefMemMap::SifiveTest => MemMapEntry { base: 0x0010_0000, size: 0x0000_1000 },
        RefMemMap::Rtc => MemMapEntry { base: 0x0010_1000, size: 0x0000_1000 },
        RefMemMap::Aclint => MemMapEntry { base: 0x0200_0000, size: 0x0001_0000 },
        RefMemMap::Plic => MemMapEntry { base: 0x0C00_0000, size: 0x0400_0000 },
        RefMemMap::Uart0 => MemMapEntry { base: 0x1000_0000, size: 0x0000_0100 },
        RefMemMap::FwCfg => MemMapEntry { base: 0x1010_0000, size: 0x0000_0018 },
        RefMemMap::Virtio => MemMapEntry { base: 0x1000_1000, size: 0x0000_1000 },
        RefMemMap::Dram => MemMapEntry { base: 0x8000_0000, size: 0 },
        RefMemMap::Count => MemMapEntry { base: 0, size: 0 },
    }
}

pub const MROM_BASE: u64 = 0x0000_1000;
pub const MROM_SIZE: u64 = 0x0000_F000;
pub const RAM_BASE: u64 = 0x8000_0000;
pub const PLIC_NUM_SOURCES: u32 = 96;
pub const VIRTIO_SLOT_COUNT: usize = 8;

/// Interrupt numbers of the reference board's devices at the PLIC.
#[derive(Debug, Clone, Copy, PartialEq, Eq, Structural)]
pub struct RefIrqMap {
    pub uart0: u32,
    pub rtc: u32,
    /// The virtio-mmio device's interrupt.
    pub virtio_base: u32,
}

/// The reference board's interrupt numbers.
pub fn ref_irqmap() -> (r: RefIrqMap)
    ensures
        r == (RefIrqMap { uart0: 10, rtc: 11, virtio_base: 1 }),
{
    RefIrqMap { uart0: 10, rtc: 11, virtio_base: 1 }
}

pub const FINISHER_FAIL: u32 = 0x3333;
pub const FINISHER_PASS: u32 = 0x5555;
pub const FINISHER_RESET: u32 = 0x7777;

/// Shutdown reason reported by the SiFive test device.
#[derive(Debug, Clone, Copy, PartialEq, Eq, Structural)]
pub enum ShutdownReason {
    Pass,
    Reset,
    Fail(u32),
}

/// The request a write of `val` (`size` bytes at `offset`) makes of the
/// finisher: the low half-word is the command, the high one the exit
/// code of a failure.
pub open spec fn finisher_request(offset: u64, size: u32, val: u64) -> Option<ShutdownReason> {
    let status = val & 0xffff;
    let code = ((val >> 16u64) & 0xffff) as u32;
    if offset != 0 || (size != 2 && size != 4) {
        None
    } else if status == FINISHER_FAIL as u64 {
        Some(ShutdownReason::Fail(code))
    } else if status == FINISHER_PASS as u64 {
        Some(ShutdownReason::Pass)
    } else if status == FINISHER_RESET as u64 {
        Some(ShutdownReason::Reset)
    } else {
        None
    }
}

/// The SiFive test finisher: a single register whose writes end the run.
pub struct SifiveTest {
    /// Whether a shutdown or reset has been requested.
    pub triggered: bool,
}

impl SifiveTest {
    /// A finisher that has not been triggered.
    pub fn new() -> (r: Self)
        ensures
            !r.triggered,
    {
        SifiveTest { triggered: false }
    }

    /// Reset: forget any request.
    pub fn reset_runtime(&mut self)
        ensures
            !final(self).triggered,
    {
        self.triggered = false;
    }

    /// Whether a shutdown or reset has been requested.
    pub fn is_triggered(&self) -> (r: bool)
        ensures
            r == self.triggered,
    {
        self.triggered
    }

    /// Reads return 0.
    pub fn read(&self, offset: u64, size: u32) -> (r: u64)
        ensures
            r == 0,
    {
        0
    }

    /// A guest write; returns the shutdown request it makes, if any, in
    /// which case the device is triggered.
    pub fn write(&mut self, offset: u64, size: u32, val: u64) -> (r: Option<ShutdownReason>)
        ensures
            r == finisher_request(offset, size, val),
            final(self).triggered == (old(self).triggered || r is Some),
    {
        if offset != 0 || (size != 2 && size != 4) {
            return None;
        }
        let status = val & 0xffff;
        let code = ((val >> 16u64) & 0xffff) as u32;
        let reason = if status == FINISHER_FAIL as u64 {
            ShutdownReason::Fail(code)
        } else if status == FINISHER_PASS as u64 {
            ShutdownReason::Pass
        } else if status == FINISHER_RESET as u64 {
            ShutdownReason::Reset
        } else {
            return None;
        };
        self.triggered = true;
        Some(reason)
    }
}


/// Where the board's bus devices are mapped: `(base, size)` of the PLIC,
/// the ACLINT, the console UART and, when a drive is attached, the
/// virtio-mmio slot.
#[derive(Debug, Clone, Copy)]
pub struct RefFdtLayout {
    pub plic: (u64, u64),
    pub aclint: (u64, u64),
    pub uart: (u64, u64),
    pub virtio: Option<(u64, u64)>,
}

/// The `reg` cells of a mapping: base and size as two cells each.
pub open spec fn map_cells(m: (u64, u64)) -> Seq<u32> {
    seq![(m.0 / 0x1_0000_0000) as u32, (m.0 % 0x1_0000_0000) as u32, (m.1 / 0x1_0000_0000) as u32, (m.1 % 0x1_0000_0000) as u32]
}

/// `interrupts-extended` cells routing interrupts `a` and `b` of each of
/// `n` harts (whose controller phandle is the hart number plus one).
pub open spec fn hart_irq_cells(n: u32, a: u32, b: u32) -> Seq<u32> {
    Seq::new(4 * n as nat, |k: int| if k % 4 == 1 { a } else if k % 4 == 3 { b } else { (k / 4 + 1) as u32 })
}

pub open spec fn ref_root_ops() -> Seq<FdtOp> {
    seq![
        op_begin("".spec_bytes()),
        op_prop("compatible".spec_bytes(), str_val("machina,riscv64-ref")),
        op_prop("model".spec_bytes(), str_val("Machina RISC-V Reference Platform")),
        op_prop("#address-cells".spec_bytes(), be4(2)),
        op_prop("#size-cells".spec_bytes(), be4(2)),
    ]
}

pub open spec fn ref_cpu_head_ops(i: u32) -> Seq<FdtOp> {
    seq![
        op_begin("cpu@".spec_bytes() + dec_text(i as nat)),
        op_prop("device_type".spec_bytes(), str_val("cpu")),
        op_prop("reg".spec_bytes(), be4(i)),
        op_prop("compatible".spec_bytes(), str_val("riscv")),
        op_prop("riscv,isa".spec_bytes(), str_val("rv64imafdc_zba_zbb_zbc_zbs_zicsr_zifencei")),
        op_prop("mmu-type".spec_bytes(), str_val("riscv,sv39")),
        op_prop("status".spec_bytes(), str_val("okay")),
    ]
}

pub open spec fn ref_cpu_intc_ops(i: u32) -> Seq<FdtOp> {
    seq![
        op_begin("interrupt-controller".spec_bytes()),
        op_prop("#interrupt-cells".spec_bytes(), be4(1)),
        op_prop("interrupt-controller".spec_bytes(), Seq::empty()),
        op_prop("compatible".spec_bytes(), str_val("riscv,cpu-intc")),
        op_prop("phandle".spec_bytes(), be4((i + 1) as u32)),
        op_end(),
        op_end(),
    ]
}

/// The node of hart `i` with its interrupt controller.
pub open spec fn ref_cpu_ops(i: u32) -> Seq<FdtOp> {
    ref_cpu_head_ops(i) + ref_cpu_intc_ops(i)
}

/// The nodes of harts `0..n`.
pub open spec fn ref_cpu_nodes(n: nat) -> Seq<FdtOp>
    decreases n,
{
    if n == 0 {
        Seq::empty()
    } else {
        ref_cpu_nodes((n - 1) as nat) + ref_cpu_ops((n - 1) as u32)
    }
}

pub open spec fn ref_cpus_ops(n: u32) -> Seq<FdtOp> {
    seq![
        op_begin("cpus".spec_bytes()),
        op_prop("#address-cells".spec_bytes(), be4(1)),
        op_prop("#size-cells".spec_bytes(), be4(0)),
        op_prop("timebase-frequency".spec_bytes(), be4(10_000_000)),
    ] + ref_cpu_nodes(n as nat) + seq![op_end()]
}

pub open spec fn ref_memory_ops(ram_size: u64) -> Seq<FdtOp> {
    seq![
        op_begin("memory@80000000".spec_bytes()),
        op_prop("device_type".spec_bytes(), str_val("memory")),
        op_prop("reg".spec_bytes(), cells_be(seq![0u32, 0x8000_0000u32, (ram_size / 0x1_0000_0000) as u32, (ram_size % 0x1_0000_0000) as u32])),
        op_end(),
    ]
}

pub open spec fn ref_soc_head_ops() -> Seq<FdtOp> {
    seq![
        op_begin("soc".spec_bytes()),
        op_prop("#address-cells".spec_bytes(), be4(2)),
        op_prop("#size-cells".spec_bytes(), be4(2)),
        op_prop("compatible".spec_bytes(), str_val("simple-bus")),
        op_prop("ranges".spec_bytes(), Seq::empty()),
    ]
}

pub open spec fn ref_plic_ops(n: u32, d: RefFdtLayout) -> Seq<FdtOp> {
    seq![
        op_begin(hex_name("plic@", d.plic.0)),
        op_prop("compatible".spec_bytes(), str_val("sifive,plic-1.0.0")),
        op_prop("#interrupt-cells".spec_bytes(), be4(1)),
        op_prop("interrupt-controller".spec_bytes(), Seq::empty()),
        op_prop("phandle".spec_bytes(), be4((n + 1) as u32)),
        op_prop("reg".spec_bytes(), cells_be(map_cells(d.plic))),
        op_prop("riscv,ndev".spec_bytes(), be4((PLIC_NUM_SOURCES - 1) as u32)),
        op_prop("interrupts-extended".spec_bytes(), cells_be(hart_irq_cells(n, IRQ_MEI, IRQ_SEI))),
        op_end(),
    ]
}

pub open spec fn ref_clint_ops(n: u32, d: RefFdtLayout) -> Seq<FdtOp> {
    seq![
        op_begin(hex_name("clint@", d.aclint.0)),
        op_prop("compatible".spec_bytes(), str_val("riscv,clint0")),
        op_prop("reg".spec_bytes(), cells_be(map_cells(d.aclint))),
        op_prop("interrupts-extended".spec_bytes(), cells_be(hart_irq_cells(n, IRQ_MTI, IRQ_MSI))),
        op_end(),
    ]
}

pub open spec fn ref_test_ops() -> Seq<FdtOp> {
    seq![
        op_begin("test@100000".spec_bytes()),
        op_prop("compatible".spec_bytes(), str_val("sifive,test0")),
        op_prop("reg".spec_bytes(), cells_be(seq![0u32, 0x10_0000u32, 0u32, 0x1000u32])),
        op_end(),
    ]
}

pub open spec fn ref_serial_ops(n: u32, d: RefFdtLayout) -> Seq<FdtOp> {
    seq![
        op_begin(hex_name("serial@", d.uart.0)),
        op_prop("compatible".spec_bytes(), str_val("ns16550a")),
        op_prop("reg".spec_bytes(), cells_be(map_cells(d.uart))),
        op_prop("interrupts".spec_bytes(), be4(10)),
        op_prop("interrupt-parent".spec_bytes(), be4((n + 1) as u32)),
        op_prop("clock-frequency".spec_bytes(), be4(3_686_400)),
        op_end(),
    ]
}

pub open spec fn ref_virtio_ops(n: u32, d: RefFdtLayout) -> Seq<FdtOp> {
    match d.virtio {
        Some(v) => seq![
            op_begin(hex_name("virtio_mmio@", v.0)),
            op_prop("compatible".spec_bytes(), str_val("virtio,mmio")),
            op_prop("reg".spec_bytes(), cells_be(map_cells(v))),
            op_prop("interrupts".spec_bytes(), be4(1)),
            op_prop("interrupt-parent".spec_bytes(), be4((n + 1) as u32)),
            op_end(),
        ],
        None => Seq::empty(),
    }
}

pub open spec fn ref_chosen_ops(d: RefFdtLayout, cmdline: Option<Seq<u8>>, initrd: Option<(u64, u64)>) -> Seq<FdtOp> {
    seq![
        op_begin("chosen".spec_bytes()),
        op_prop("stdout-path".spec_bytes(), hex_name("/soc/serial@", d.uart.0) + seq![0u8]),
    ] + match cmdline {
        Some(c) => seq![op_prop("bootargs".spec_bytes(), c + seq![0u8])],
        None => Seq::empty(),
    } + match initrd {
        Some(r) => seq![
            op_prop("linux,initrd-start".spec_bytes(), cells_be(seq![(r.0 / 0x1_0000_0000) as u32, (r.0 % 0x1_0000_0000) as u32])),
            op_prop("linux,initrd-end".spec_bytes(), cells_be(seq![(r.1 / 0x1_0000_0000) as u32, (r.1 % 0x1_0000_0000) as u32])),
        ],
        None => Seq::empty(),
    } + seq![op_end()]
}

/// The steps that write the reference board's device tree.
pub open spec fn ref_fdt_ops(ram_size: u64, cpu_count: u32, d: RefFdtLayout, cmdline: Option<Seq<u8>>, initrd: Option<(u64, u64)>) -> Seq<FdtOp> {
    ref_root_ops() + ref_cpus_ops(cpu_count) + ref_memory_ops(ram_size) + ref_soc_head_ops()
        + ref_plic_ops(cpu_count, d) + ref_clint_ops(cpu_count, d) + ref_test_ops() + ref_serial_ops(cpu_count, d)
        + ref_virtio_ops(cpu_count, d) + seq![op_end()] + ref_chosen_ops(d, cmdline, initrd) + seq![op_end()]
}

fn mapping_cells(m: (u64, u64)) -> (r: [u32; 4])
    ensures
        r@ == map_cells(m),
{
    let r = [(m.0 / 0x1_0000_0000) as u32, (m.0 % 0x1_0000_0000) as u32, (m.1 / 0x1_0000_0000) as u32, (m.1 % 0x1_0000_0000) as u32];
    proof {
        assert(r@ =~= map_cells(m));
    }
    r
}

fn hart_irqs(n: u32, a: u32, b: u32) -> (r: Vec<u32>)
    requires
        n < u32::MAX,
    ensures
        r@ == hart_irq_cells(n, a, b),
{
    let mut out: Vec<u32> = Vec::new();
    let mut i: u32 = 0;
    while i < n
        invariant
            i <= n < u32::MAX,
            out@.len() == 4 * i,
            forall|k: int| 0 <= k < out@.len() ==> #[trigger] out@[k] == (if k % 4 == 1 { a } else if k % 4 == 3 { b } else { (k / 4 + 1) as u32 }),
        decreases n - i,
    {
        let ph = i + 1;
        out.push(ph);
        out.push(a);
        out.push(ph);
        out.push(b);
        i = i + 1;
    }
    proof {
        assert(out@ =~= hart_irq_cells(n, a, b));
    }
    out
}

fn ref_write_root(w: &mut OpWriter)
    requires
        old(w).wf(),
        old(w).ops@ == Seq::<FdtOp>::empty(),
    ensures
        final(w).wf(),
        final(w).ops@ == ref_root_ops(),
{
    w.begin("".as_bytes());
    w.prop_str("compatible", "machina,riscv64-ref");
    w.prop_str("model", "Machina RISC-V Reference Platform");
    w.prop_u32("#address-cells", 2);
    w.prop_u32("#size-cells", 2);
    proof {
        assert(w.ops@ =~= ref_root_ops());
    }
}

fn ref_write_cpu_head(w: &mut OpWriter, i: u32)
    requires
        old(w).wf(),
    ensures
        final(w).wf(),
        final(w).ops@ == old(w).ops@ + ref_cpu_head_ops(i),
{
    let ghost before = w.ops@;
    let mut name: Vec<u8> = Vec::new();
    push_all(&mut name, "cpu@".as_bytes());
    push_dec(&mut name, i as u64);
    w.begin(name.as_slice());
    w.prop_str("device_type", "cpu");
    w.prop_u32("reg", i);
    w.prop_str("compatible", "riscv");
    w.prop_str("riscv,isa", "rv64imafdc_zba_zbb_zbc_zbs_zicsr_zifencei");
    w.prop_str("mmu-type", "riscv,sv39");
    w.prop_str("status", "okay");
    proof {
        assert(name@ =~= "cpu@".spec_bytes() + dec_text(i as nat));
        assert(w.ops@ =~= before + ref_cpu_head_ops(i));
    }
}

fn ref_write_cpu_intc(w: &mut OpWriter, i: u32)
    requires
        old(w).wf(),
        i < u32::MAX,
    ensures
        final(w).wf(),
        final(w).ops@ == old(w).ops@ + ref_cpu_intc_ops(i),
{
    let ghost before = w.ops@;
    w.begin("interrupt-controller".as_bytes());
    w.prop_u32("#interrupt-cells", 1);
    w.prop_empty("interrupt-controller");
    w.prop_str("compatible", "riscv,cpu-intc");
    w.prop_u32("phandle", i + 1);
    w.end();
    w.end();
    proof {
        assert(w.ops@ =~= before + ref_cpu_intc_ops(i));
    }
}

fn ref_write_cpu(w: &mut OpWriter, i: u32)
    requires
        old(w).wf(),
        i < u32::MAX,
    ensures
        final(w).wf(),
        final(w).ops@ == old(w).ops@ + ref_cpu_ops(i),
{
    let ghost before = w.ops@;
    ref_write_cpu_head(w, i);
    ref_write_cpu_intc(w, i);
    proof {
        assert(w.ops@ =~= before + ref_cpu_ops(i));
    }
}

fn ref_write_cpus(w: &mut OpWriter, n: u32)
    requires
        old(w).wf(),
        n < u32::MAX,
    ensures
        final(w).wf(),
        final(w).ops@ == old(w).ops@ + ref_cpus_ops(n),
{
    let ghost s0 = w.ops@;
    w.begin("cpus".as_bytes());
    w.prop_u32("#address-cells", 1);
    w.prop_u32("#size-cells", 0);
    w.prop_u32("timebase-frequency", 10_000_000);
    let ghost s1 = w.ops@;
    proof {
        assert(ref_cpu_nodes(0) =~= Seq::<FdtOp>::empty());
    }
    let mut i: u32 = 0;
    while i < n
        invariant
            i <= n < u32::MAX,
            w.wf(),
            w.ops@ =~= s1 + ref_cpu_nodes(i as nat),
        decreases n - i,
    {
        let ghost before = w.ops@;
        ref_write_cpu(w, i);
        proof {
            assert(ref_cpu_nodes((i + 1) as nat) == ref_cpu_nodes(i as nat) + ref_cpu_ops(i));
            assert(w.ops@ =~= s1 + ref_cpu_nodes((i + 1) as nat));
        }
        i = i + 1;
    }
    w.end();
    proof {
        assert(w.ops@ =~= s0 + ref_cpus_ops(n));
    }
}

fn ref_write_memory(w: &mut OpWriter, ram_size: u64)
    requires
        old(w).wf(),
    ensures
        final(w).wf(),
        final(w).ops@ == old(w).ops@ + ref_memory_ops(ram_size),
{
    let ghost s0 = w.ops@;
    w.begin("memory@80000000".as_bytes());
    w.prop_str("device_type", "memory");
    let cells = [0u32, 0x8000_0000u32, (ram_size / 0x1_0000_0000) as u32, (ram_size % 0x1_0000_0000) as u32];
    w.prop_cells("reg", &cells);
    w.end();
    proof {
        assert(cells@ =~= seq![0u32, 0x8000_0000u32, (ram_size / 0x1_0000_0000) as u32, (ram_size % 0x1_0000_0000) as u32]);
        assert(w.ops@ =~= s0 + ref_memory_ops(ram_size));
    }
}

fn ref_write_soc_head(w: &mut OpWriter)
    requires
        old(w).wf(),
    ensures
        final(w).wf(),
        final(w).ops@ == old(w).ops@ + ref_soc_head_ops(),
{
    let ghost s0 = w.ops@;
    w.begin("soc".as_bytes());
    w.prop_u32("#address-cells", 2);
    w.prop_u32("#size-cells", 2);
    w.prop_str("compatible", "simple-bus");
    w.prop_empty("ranges");
    proof {
        assert(w.ops@ =~= s0 + ref_soc_head_ops());
    }
}

fn ref_write_plic(w: &mut OpWriter, n: u32, d: &RefFdtLayout)
    requires
        old(w).wf(),
        n < u32::MAX,
    ensures
        final(w).wf(),
        final(w).ops@ == old(w).ops@ + ref_plic_ops(n, *d),
{
    let ghost s0 = w.ops@;
    let name = hex_node_name("plic@", d.plic.0);
    w.begin(name.as_slice());
    w.prop_str("compatible", "sifive,plic-1.0.0");
    w.prop_u32("#interrupt-cells", 1);
    w.prop_empty("interrupt-controller");
    w.prop_u32("phandle", n + 1);
    let cells = mapping_cells(d.plic);
    w.prop_cells("reg", &cells);
    w.prop_u32("riscv,ndev", PLIC_NUM_SOURCES - 1);
    let ext = hart_irqs(n, IRQ_MEI, IRQ_SEI);
    w.prop_cells("interrupts-extended", ext.as_slice());
    w.end();
    proof {
        assert(w.ops@ =~= s0 + ref_plic_ops(n, *d));
    }
}

fn ref_write_clint(w: &mut OpWriter, n: u32, d: &RefFdtLayout)
    requires
        old(w).wf(),
        n < u32::MAX,
    ensures
        final(w).wf(),
        final(w).ops@ == old(w).ops@ + ref_clint_ops(n, *d),
{
    let ghost s0 = w.ops@;
    let name = hex_node_name("clint@", d.aclint.0);
    w.begin(name.as_slice());
    w.prop_str("compatible", "riscv,clint0");
    let cells = mapping_cells(d.aclint);
    w.prop_cells("reg", &cells);
    let ext = hart_irqs(n, IRQ_MTI, IRQ_MSI);
    w.prop_cells("interrupts-extended", ext.as_slice());
    w.end();
    proof {
        assert(w.ops@ =~= s0 + ref_clint_ops(n, *d));
    }
}

fn ref_write_test(w: &mut OpWriter)
    requires
        old(w).wf(),
    ensures
        final(w).wf(),
        final(w).ops@ == old(w).ops@ + ref_test_ops(),
{
    let ghost s0 = w.ops@;
    w.begin("test@100000".as_bytes());
    w.prop_str("compatible", "sifive,test0");
    let tcells = [0u32, 0x10_0000u32, 0u32, 0x1000u32];
    w.prop_cells("reg", &tcells);
    w.end();
    proof {
        assert(tcells@ =~= seq![0u32, 0x10_0000u32, 0u32, 0x1000u32]);
        assert(w.ops@ =~= s0 + ref_test_ops());
    }
}

fn ref_write_serial(w: &mut OpWriter, n: u32, d: &RefFdtLayout)
    requires
        old(w).wf(),
        n < u32::MAX,
    ensures
        final(w).wf(),
        final(w).ops@ == old(w).ops@ + ref_serial_ops(n, *d),
{
    let ghost s0 = w.ops@;
    let name = hex_node_name("serial@", d.uart.0);
    w.begin(name.as_slice());
    w.prop_str("compatible", "ns16550a");
    let cells = mapping_cells(d.uart);
    w.prop_cells("reg", &cells);
    w.prop_u32("interrupts", 10);
    w.prop_u32("interrupt-parent", n + 1);
    w.prop_u32("clock-frequency", 3_686_400);
    w.end();
    proof {
        assert(w.ops@ =~= s0 + ref_serial_ops(n, *d));
    }
}

fn ref_write_virtio(w: &mut OpWriter, n: u32, d: &RefFdtLayout)
    requires
        old(w).wf(),
        n < u32::MAX,
    ensures
        final(w).wf(),
        final(w).ops@ == old(w).ops@ + ref_virtio_ops(n, *d),
{
    let ghost s0 = w.ops@;
    match d.virtio {
        Some(v) => {
            let name = hex_node_name("virtio_mmio@", v.0);
            w.begin(name.as_slice());
            w.prop_str("compatible", "virtio,mmio");
            let cells = mapping_cells(v);
            w.prop_cells("reg", &cells);
            w.prop_u32("interrupts", 1);
            w.prop_u32("interrupt-parent", n + 1);
            w.end();
        },
        None => {},
    }
    proof {
        assert(w.ops@ =~= s0 + ref_virtio_ops(n, *d));
    }
}

fn ref_write_chosen(w: &mut OpWriter, d: &RefFdtLayout, cmdline: Option<&str>, initrd: Option<(u64, u64)>)
    requires
        old(w).wf(),
    ensures
        final(w).wf(),
        final(w).ops@ == old(w).ops@ + ref_chosen_ops(*d, match cmdline { Some(c) => Some(c.spec_bytes()), None => None }, initrd),
{
    let ghost s0 = w.ops@;
    w.begin("chosen".as_bytes());
    let mut path = hex_node_name("/soc/serial@", d.uart.0);
    path.push(0);
    w.prop("stdout-path", path.as_slice());
    proof {
        assert(path@ =~= hex_name("/soc/serial@", d.uart.0) + seq![0u8]);
    }
    match cmdline {
        Some(c) => {
            w.prop_str("bootargs", c);
        },
        None => {},
    }
    match initrd {
        Some(r) => {
            let a = [(r.0 / 0x1_0000_0000) as u32, (r.0 % 0x1_0000_0000) as u32];
            w.prop_cells("linux,initrd-start", &a);
            let b = [(r.1 / 0x1_0000_0000) as u32, (r.1 % 0x1_0000_0000) as u32];
            w.prop_cells("linux,initrd-end", &b);
            proof {
                assert(a@ =~= seq![(r.0 / 0x1_0000_0000) as u32, (r.0 % 0x1_0000_0000) as u32]);
                assert(b@ =~= seq![(r.1 / 0x1_0000_0000) as u32, (r.1 % 0x1_0000_0000) as u32]);
            }
        },
        None => {},
    }
    w.end();
    proof {
        assert(w.ops@ =~= s0 + ref_chosen_ops(*d, match cmdline { Some(c) => Some(c.spec_bytes()), None => None }, initrd));
    }
}

fn ref_write_close(w: &mut OpWriter)
    requires
        old(w).wf(),
    ensures
        final(w).wf(),
        final(w).ops@ == old(w).ops@ + seq![op_end()],
{
    w.end();
    proof {
        assert(w.ops@ =~= old(w).ops@ + seq![op_end()]);
    }
}

/// The reference board's device tree: the harts with their interrupt
/// controllers, RAM, the bus devices (PLIC, ACLINT, test finisher,
/// console and the optional virtio slot) and the chosen node (console,
/// command line, initrd range).
pub fn generate_fdt(ram_size: u64, cpu_count: u32, layout: &RefFdtLayout, cmdline: Option<&str>, initrd_range: Option<(u64, u64)>) -> (r: Vec<u8>)
    requires
        cpu_count < u32::MAX,
    ensures
        r@ == ops_blob(ref_fdt_ops(ram_size, cpu_count, *layout, match cmdline { Some(c) => Some(c.spec_bytes()), None => None }, initrd_range)),
{
    let mut w = OpWriter::new();
    ref_write_root(&mut w);
    ref_write_cpus(&mut w, cpu_count);
    ref_write_memory(&mut w, ram_size);
    ref_write_soc_head(&mut w);
    ref_write_plic(&mut w, cpu_count, layout);
    ref_write_clint(&mut w, cpu_count, layout);
    ref_write_test(&mut w);
    ref_write_serial(&mut w, cpu_count, layout);
    ref_write_virtio(&mut w, cpu_count, layout);
    ref_write_close(&mut w);
    ref_write_chosen(&mut w, layout, cmdline, initrd_range);
    ref_write_close(&mut w);
    w.finish()
}

} // verus!
