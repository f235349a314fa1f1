//! Boot planning for the riscv64 reference board: where firmware, kernel,
//! initrd and device tree go, the reset vector written to the mask ROM
//! and the OpenSBI `fw_dynamic` hand-off block.
//!
//! Reading files and copying images into guest memory is the caller's
//! part; these functions decide addresses and bytes.
use vstd::prelude::*;
use crate::bytes::{le_bytes, push_le_u32, push_le_u64};
use crate::ref_machine::RAM_BASE;

verus! {

/// Kernel is loaded 2 MiB above RAM_BASE when firmware runs first.
pub const KERNEL_OFFSET: u64 = 0x20_0000;
/// Space kept free above the device tree for firmware scratch.
pub const FDT_MARGIN: u64 = 0x10000;
/// Space reserved at the top of RAM for the device tree.
pub const FDT_RESERVE: u64 = 128 * 1024;
pub const DYNAMIC_INFO_MAGIC: u64 = 0x4942534f;
pub const DYNAMIC_INFO_VERSION: u64 = 2;
/// `next_mode` for a supervisor-mode next stage.
pub const NEXT_MODE_S: u64 = 1;
/// `next_mode` for a machine-mode next stage.
pub const NEXT_MODE_M: u64 = 3;

/// Why a boot cannot be planned.
#[derive(Debug, Clone, Copy, PartialEq, Eq, Structural)]
pub enum RiscvBootError {
    /// The device tree does not fit in RAM.
    FdtTooLarge,
    /// The initrd would overlap the device tree reservation.
    InitrdTooLarge { size: u64, end: u64, usable_end: u64 },
    /// Builtin (firmware-less) boot needs a kernel.
    KernelRequired,
}

impl RiscvBootError {
    /// The text of the description.
    pub open spec fn message_text(&self) -> Seq<char> {
        match self {
            RiscvBootError::FdtTooLarge => "FDT blob larger than available RAM"@,
            RiscvBootError::InitrdTooLarge { .. } => "initrd exceeds usable RAM"@,
            RiscvBootError::KernelRequired => "builtin mode requires -kernel"@,
        }
    }

    /// Human-readable description of the error.
    pub fn message(&self) -> (r: &'static str)
        ensures
            r@ == self.message_text(),
    {
        match self {
            RiscvBootError::FdtTooLarge => "FDT blob larger than available RAM",
            RiscvBootError::InitrdTooLarge { .. } => "initrd exceeds usable RAM",
            RiscvBootError::KernelRequired => "builtin mode requires -kernel",
        }
    }
}

/// OpenSBI-compatible `fw_dynamic_info` (RV64).
#[derive(Debug, Clone, Copy, PartialEq, Eq, Structural)]
pub struct DynamicInfo {
    pub magic: u64,
    pub version: u64,
    pub next_addr: u64,
    pub next_mode: u64,
    pub options: u64,
    pub boot_hart: u64,
}

/// The 48-byte little-endian image of a `fw_dynamic_info`.
pub open spec fn dynamic_info_bytes(d: DynamicInfo) -> Seq<u8> {
    le_bytes(d.magic as nat, 8) + le_bytes(d.version as nat, 8) + le_bytes(d.next_addr as nat, 8)
        + le_bytes(d.next_mode as nat, 8) + le_bytes(d.options as nat, 8) + le_bytes(
        d.boot_hart as nat,
        8,
    )
}

impl DynamicInfo {
    /// A hand-off block telling the firmware to jump to `next_addr` in
    /// mode `next_mode`, booting hart 0.
    pub fn new(next_addr: u64, next_mode: u64) -> (r: Self)
        ensures
            r == (DynamicInfo {
                magic: DYNAMIC_INFO_MAGIC,
                version: DYNAMIC_INFO_VERSION,
                next_addr,
                next_mode,
                options: 0,
                boot_hart: 0,
            }),
    {
        DynamicInfo {
            magic: DYNAMIC_INFO_MAGIC,
            version: DYNAMIC_INFO_VERSION,
            next_addr,
            next_mode,
            options: 0,
            boot_hart: 0,
        }
    }

    /// The block as it is laid out in guest memory.
    pub fn to_bytes(&self) -> (r: Vec<u8>)
        ensures
            r@ == dynamic_info_bytes(*self),
            r@.len() == 48,
    {
        let mut out: Vec<u8> = Vec::new();
        push_le_u64(&mut out, self.magic);
        push_le_u64(&mut out, self.version);
        push_le_u64(&mut out, self.next_addr);
        push_le_u64(&mut out, self.next_mode);
        push_le_u64(&mut out, self.options);
        push_le_u64(&mut out, self.boot_hart);
        proof {
            crate::bytes::lemma_le_bytes_len(self.magic as nat, 8);
            crate::bytes::lemma_le_bytes_len(self.version as nat, 8);
            crate::bytes::lemma_le_bytes_len(self.next_addr as nat, 8);
            crate::bytes::lemma_le_bytes_len(self.next_mode as nat, 8);
            crate::bytes::lemma_le_bytes_len(self.options as nat, 8);
            crate::bytes::lemma_le_bytes_len(self.boot_hart as nat, 8);
            assert(out@ =~= dynamic_info_bytes(*self));
        }
        out
    }
}

/// The reset vector: load the hart id, the device tree address and the
/// hand-off block, then jump to the start address; the two addresses
/// follow as 64-bit words.
pub open spec fn reset_vector(start_addr: u64, fdt_addr: u64) -> Seq<u32> {
    seq![
        0x0000_0297u32,
        0x0282_8613,
        0xf140_2573,
        0x0202_b583,
        0x0182_b283,
        0x0002_8067,
        (start_addr % 0x1_0000_0000) as u32,
        (start_addr / 0x1_0000_0000) as u32,
        (fdt_addr % 0x1_0000_0000) as u32,
        (fdt_addr / 0x1_0000_0000) as u32,
    ]
}

/// The little-endian bytes of a sequence of words.
pub open spec fn words_le(words: Seq<u32>) -> Seq<u8>
    decreases words.len(),
{
    if words.len() == 0 {
        Seq::empty()
    } else {
        words_le(words.drop_last()) + le_bytes(words.last() as nat, 4)
    }
}

/// The mask ROM contents: the reset vector, then at offset 0x28 the
/// hand-off block naming `kernel_entry`, in S mode after firmware or M
/// mode without.
pub open spec fn mrom_contents(start_addr: u64, fdt_addr: u64, kernel_entry: u64, has_firmware: bool) -> Seq<u8> {
    words_le(reset_vector(start_addr, fdt_addr)) + dynamic_info_bytes(
        DynamicInfo {
            magic: DYNAMIC_INFO_MAGIC,
            version: DYNAMIC_INFO_VERSION,
            next_addr: kernel_entry,
            next_mode: if has_firmware { NEXT_MODE_S } else { NEXT_MODE_M },
            options: 0,
            boot_hart: 0,
        },
    )
}

/// The mask ROM image for the reference board.
pub fn mrom_image(start_addr: u64, fdt_addr: u64, kernel_entry: u64, has_firmware: bool) -> (r: Vec<u8>)
    ensures
        r@ == mrom_contents(start_addr, fdt_addr, kernel_entry, has_firmware),
        r@.len() == 88,
{
    let words: [u32; 10] = [
        0x0000_0297,
        0x0282_8613,
        0xf140_2573,
        0x0202_b583,
        0x0182_b283,
        0x0002_8067,
        (start_addr % 0x1_0000_0000) as u32,
        (start_addr / 0x1_0000_0000) as u32,
        (fdt_addr % 0x1_0000_0000) as u32,
        (fdt_addr / 0x1_0000_0000) as u32,
    ];
    let ghost rv = reset_vector(start_addr, fdt_addr);
    proof {
        assert(words@ =~= rv);
    }
    let mut out: Vec<u8> = Vec::new();
    let mut i: usize = 0;
    while i < 10
        invariant
            i <= 10,
            words@ == rv,
            rv.len() == 10,
            out@ == words_le(rv.take(i as int)),
            out@.len() == 4 * i,
        decreases 10 - i,
    {
        push_le_u32(&mut out, words[i]);
        proof {
            crate::bytes::lemma_le_bytes_len(words[i as int] as nat, 4);
            let t = rv.take((i + 1) as int);
            assert(t.drop_last() =~= rv.take(i as int));
            assert(t.last() == rv[i as int]);
        }
        i = i + 1;
    }
    proof {
        assert(rv.take(10) =~= rv);
    }
    let next_mode = if has_firmware {
        NEXT_MODE_S
    } else {
        NEXT_MODE_M
    };
    let info = DynamicInfo::new(kernel_entry, next_mode);
    let tail = info.to_bytes();
    let mut j: usize = 0;
    let ghost head = out@;
    while j < tail.len()
        invariant
            j <= tail@.len(),
            tail@.len() == 48,
            out@ == head + tail@.take(j as int),
        decreases tail.len() - j,
    {
        out.push(tail[j]);
        j = j + 1;
        proof {
            assert(out@ =~= head + tail@.take(j as int));
        }
    }
    proof {
        assert(tail@.take(48) =~= tail@);
    }
    out
}

/// The guest address of a device tree of `fdt_len` bytes: near the top
/// of RAM below a 64 KiB margin, 8-byte aligned.
pub open spec fn fdt_load_addr(fdt_len: u64, ram_size: u64) -> u64 {
    (RAM_BASE + ((ram_size - FDT_MARGIN - fdt_len) as u64 & !7u64)) as u64
}

/// Where the device tree goes. Fails when it is larger than RAM.
pub fn place_fdt(fdt_len: u64, ram_size: u64) -> (r: Result<u64, RiscvBootError>)
    requires
        fdt_len <= ram_size ==> fdt_len + FDT_MARGIN <= ram_size,
        RAM_BASE + ram_size <= u64::MAX,
    ensures
        fdt_len > ram_size ==> r == Err::<u64, RiscvBootError>(RiscvBootError::FdtTooLarge),
        fdt_len <= ram_size ==> r == Ok::<u64, RiscvBootError>(fdt_load_addr(fdt_len, ram_size)),
{
    if fdt_len > ram_size {
        return Err(RiscvBootError::FdtTooLarge);
    }
    let offset = (ram_size - FDT_MARGIN - fdt_len) & !7u64;
    proof {
        let x = (ram_size - FDT_MARGIN - fdt_len) as u64;
        assert(x & !7u64 <= x) by (bit_vector);
    }
    Ok(RAM_BASE + offset)
}

/// The end of the RAM usable for an initrd: below the device tree
/// reservation.
pub open spec fn usable_end(ram_size: u64) -> u64 {
    let ram_end = RAM_BASE + ram_size;
    if ram_end >= FDT_RESERVE {
        (ram_end - FDT_RESERVE) as u64
    } else {
        0
    }
}

/// Where an initrd of `size` bytes goes when firmware boots the kernel:
/// 32 MiB above the kernel.
pub fn ref_initrd_range(size: u64, ram_size: u64) -> (r: Result<(u64, u64), RiscvBootError>)
    requires
        RAM_BASE + ram_size <= u64::MAX,
        RAM_BASE + KERNEL_OFFSET + 0x200_0000 + size <= u64::MAX,
    ensures
        ({
            let start = RAM_BASE + KERNEL_OFFSET + 0x200_0000;
            let end = start + size;
            &&& end > usable_end(ram_size) ==> r == Err::<(u64, u64), RiscvBootError>(
                RiscvBootError::InitrdTooLarge { size, end: end as u64, usable_end: usable_end(ram_size) },
            )
            &&& end <= usable_end(ram_size) ==> r == Ok::<(u64, u64), RiscvBootError>(
                (start as u64, end as u64),
            )
        }),
{
    let start = RAM_BASE + KERNEL_OFFSET + 0x200_0000;
    let end = start + size;
    let limit = (RAM_BASE + ram_size).saturating_sub(FDT_RESERVE);
    if end > limit {
        return Err(RiscvBootError::InitrdTooLarge { size, end, usable_end: limit });
    }
    Ok((start, end))
}

/// Where an initrd of `size` bytes goes in builtin boot: page-aligned
/// after the kernel's end, and at least 32 MiB above RAM_BASE.
pub fn builtin_initrd_range(kernel_end: u64, size: u64, ram_size: u64) -> (r: Result<(u64, u64), RiscvBootError>)
    requires
        kernel_end + 0xFFF <= u64::MAX,
        RAM_BASE + ram_size <= u64::MAX,
        ({
            let after = (kernel_end + 0xFFF) as u64 & !0xFFFu64;
            let start = if RAM_BASE + 0x200_0000 >= after { RAM_BASE + 0x200_0000 } else { after as int };
            start + size <= u64::MAX
        }),
    ensures
        ({
            let after = (kernel_end + 0xFFF) as u64 & !0xFFFu64;
            let start: int = if RAM_BASE + 0x200_0000 >= after { RAM_BASE + 0x200_0000 } else { after as int };
            let end = start + size;
            &&& end > usable_end(ram_size) ==> r == Err::<(u64, u64), RiscvBootError>(
                RiscvBootError::InitrdTooLarge { size, end: end as u64, usable_end: usable_end(ram_size) },
            )
            &&& end <= usable_end(ram_size) ==> r == Ok::<(u64, u64), RiscvBootError>(
                (start as u64, end as u64),
            )
        }),
{
    let min_start = RAM_BASE + 0x200_0000;
    let after_kernel = (kernel_end + 0xFFF) & !0xFFFu64;
    let start = if min_start >= after_kernel {
        min_start
    } else {
        after_kernel
    };
    let end = start + size;
    let limit = (RAM_BASE + ram_size).saturating_sub(FDT_RESERVE);
    if end > limit {
        return Err(RiscvBootError::InitrdTooLarge { size, end, usable_end: limit });
    }
    Ok((start, end))
}

/// Where the kernel is loaded: above the firmware, or at the start of
/// RAM when nothing runs before it.
pub fn kernel_load_addr(has_firmware: bool) -> (r: u64)
    ensures
        r == (if has_firmware { RAM_BASE + KERNEL_OFFSET } else { RAM_BASE as int }),
{
    if has_firmware {
        RAM_BASE + KERNEL_OFFSET
    } else {
        RAM_BASE
    }
}

/// The address the reset vector jumps to: the firmware's ELF entry, the
/// start of RAM for raw firmware, else the kernel's entry, else the start
/// of RAM.
pub fn ref_start_addr(fw_entry: Option<u64>, has_firmware: bool, kernel_entry: Option<u64>) -> (r: u64)
    ensures
        r == (match fw_entry {
            Some(e) => e,
            None => if has_firmware {
                RAM_BASE
            } else {
                match kernel_entry {
                    Some(k) => k,
                    None => RAM_BASE,
                }
            },
        }),
{
    match fw_entry {
        Some(e) => e,
        None => {
            if has_firmware {
                RAM_BASE
            } else {
                match kernel_entry {
                    Some(k) => k,
                    None => RAM_BASE,
                }
            }
        },
    }
}

/// The kernel entry named in the hand-off block: the kernel's entry, or
/// the default kernel address when no kernel was given.
pub fn handoff_entry(kernel_entry: Option<u64>) -> (r: u64)
    ensures
        r == (match kernel_entry {
            Some(k) => k as int,
            None => RAM_BASE + KERNEL_OFFSET,
        }),
{
    match kernel_entry {
        Some(k) => k,
        None => RAM_BASE + KERNEL_OFFSET,
    }
}

/// Where the firmware comes from.
#[derive(Debug, Clone, PartialEq, Eq)]
pub enum BiosSource {
    /// No firmware (`-bios none`): the kernel starts in M mode.
    Disabled,
    /// A firmware file.
    File(String),
    /// The firmware built into the emulator (or found in its data
    /// directories).
    Embedded,
}

/// The firmware source for a `-bios` argument: the word `none` turns
/// firmware off, any other path names a file, no argument means the
/// built-in firmware.
pub fn resolve_bios(bios_path: Option<&str>) -> (r: BiosSource)
    ensures
        bios_path is None ==> r == BiosSource::Embedded,
        bios_path is Some ==> (if bios_path->0@ == "none"@ {
            r == BiosSource::Disabled
        } else {
            r matches BiosSource::File(f) && f@ == bios_path->0@
        }),
{
    match bios_path {
        Some(p) => {
            let none_word = "none";
            proof {
                reveal_strlit("none");
            }
            if str_eq(p, none_word) {
                BiosSource::Disabled
            } else {
                BiosSource::File(p.to_string())
            }
        },
        None => BiosSource::Embedded,
    }
}

/// Whether two strings hold the same characters.
pub fn str_eq(a: &str, b: &str) -> (r: bool)
    ensures
        r == (a@ == b@),
{
    let n = a.unicode_len();
    if n != b.unicode_len() {
        return false;
    }
    let mut i: usize = 0;
    while i < n
        invariant
            n == a@.len(),
            n == b@.len(),
            i <= n,
            forall|k: int| 0 <= k < i ==> a@[k] == b@[k],
        decreases n - i,
    {
        if a.get_char(i) != b.get_char(i) {
            return false;
        }
        i = i + 1;
    }
    proof {
        assert(a@ =~= b@);
    }
    true
}

/// The entry of a kernel ELF in builtin boot: its header entry when that
/// is non-zero before relocation, else its `_start` (or `__start`)
/// symbol moved by the load bias, else the start of RAM.
pub fn builtin_elf_entry(entry: u64, bias: Option<u64>, start_sym: Option<u64>, alt_start_sym: Option<u64>) -> (r: u64)
    requires
        (match bias {
            Some(b) => b <= entry,
            None => true,
        }),
        (match start_sym {
            Some(a) => a + (match bias {
                Some(b) => b,
                None => 0,
            }) <= u64::MAX,
            None => true,
        }),
        (match alt_start_sym {
            Some(a) => a + (match bias {
                Some(b) => b,
                None => 0,
            }) <= u64::MAX,
            None => true,
        }),
    ensures
        ({
            let b: u64 = match bias {
                Some(b) => b,
                None => 0,
            };
            if entry - b != 0 {
                r == entry
            } else {
                match start_sym {
                    Some(a) => r == a + b,
                    None => match alt_start_sym {
                        Some(a) => r == a + b,
                        None => r == RAM_BASE,
                    },
                }
            }
        }),
{
    let b = match bias {
        Some(v) => v,
        None => 0,
    };
    let raw_entry = entry - b;
    if raw_entry != 0 {
        return entry;
    }
    let sym = match start_sym {
        Some(a) => Some(a),
        None => alt_start_sym,
    };
    match sym {
        Some(addr) => addr + b,
        None => RAM_BASE,
    }
}

/// A RISC-V privilege level.
#[derive(Debug, Clone, Copy, PartialEq, Eq, Structural)]
pub enum PrivLevel {
    User,
    Supervisor,
    Machine,
}

/// The supervisor-mode state builtin boot gives hart 0: at the kernel
/// entry with a0 = hart id and a1 = device tree, software, timer and
/// external interrupts and the common exceptions delegated, the machine
/// timer enabled and one PMP entry granting all memory.
#[derive(Debug, Clone, Copy, PartialEq, Eq, Structural)]
pub struct BuiltinCpuState {
    pub priv_level: PrivLevel,
    pub pc: u64,
    pub a0: u64,
    pub a1: u64,
    pub mideleg: u64,
    pub medeleg: u64,
    pub mie: u64,
    pub pmpaddr0: u64,
    pub pmpcfg0: u64,
}

/// Hart 0's state for builtin boot into `entry` with the device tree at
/// `fdt_addr`.
pub fn builtin_cpu_state(entry: u64, fdt_addr: u64) -> (r: BuiltinCpuState)
    ensures
        r == (BuiltinCpuState {
            priv_level: PrivLevel::Supervisor,
            pc: entry,
            a0: 0,
            a1: fdt_addr,
            mideleg: 0x0222,
            medeleg: 0xB1FF,
            mie: 0x80,
            pmpaddr0: u64::MAX,
            pmpcfg0: 0x1F,
        }),
{
    BuiltinCpuState {
        priv_level: PrivLevel::Supervisor,
        pc: entry,
        a0: 0,
        a1: fdt_addr,
        mideleg: 0x0222,
        medeleg: 0xB1FF,
        mie: 0x80,
        pmpaddr0: u64::MAX,
        pmpcfg0: 0x1F,
    }
}

/// The word builtin boot leaves in the mask ROM: `jal x0, 0`, a halt.
pub const BUILTIN_MROM_HALT: u32 = 0x0000_006F;

/// The kernel image builtin boot loaded: an ELF file (its header entry,
/// load bias, `_start` and `__start` symbols) or a raw image at
/// `RAM_BASE`, with the highest address the image occupies.
#[derive(Debug, Clone, Copy, PartialEq, Eq, Structural)]
pub enum BuiltinKernel {
    Elf { entry: u64, bias: Option<u64>, start_sym: Option<u64>, alt_start_sym: Option<u64>, high_addr: u64 },
    Raw { high_addr: u64 },
}

/// The load bias of an ELF kernel, 0 when it has none.
pub open spec fn bias_of(bias: Option<u64>) -> u64 {
    match bias {
        Some(b) => b,
        None => 0,
    }
}

/// What a loaded ELF kernel must satisfy for its entry to be computed:
/// the bias does not exceed the entry and the symbols can be moved by
/// it.
pub open spec fn builtin_kernel_wf(k: BuiltinKernel) -> bool {
    match k {
        BuiltinKernel::Elf { entry, bias, start_sym, alt_start_sym, .. } => {
            &&& bias_of(bias) <= entry
            &&& (start_sym matches Some(a) ==> a + bias_of(bias) <= u64::MAX)
            &&& (alt_start_sym matches Some(a) ==> a + bias_of(bias) <= u64::MAX)
        },
        BuiltinKernel::Raw { .. } => true,
    }
}

/// Where builtin boot enters the kernel: a raw image at `RAM_BASE`; an
/// ELF file at its header entry when that is non-zero before relocation,
/// else at its `_start` (or `__start`) symbol moved by the bias, else at
/// `RAM_BASE`.
pub open spec fn builtin_entry_of(k: BuiltinKernel) -> int {
    match k {
        BuiltinKernel::Raw { .. } => RAM_BASE as int,
        BuiltinKernel::Elf { entry, bias, start_sym, alt_start_sym, .. } => {
            let b = bias_of(bias);
            if entry - b != 0 {
                entry as int
            } else {
                match start_sym {
                    Some(a) => a + b,
                    None => match alt_start_sym {
                        Some(a) => a + b,
                        None => RAM_BASE as int,
                    },
                }
            }
        },
    }
}

/// The entry of the kernel builtin boot starts, and the end of its
/// image. Builtin boot has no firmware, so a kernel is required.
pub fn builtin_kernel_entry(kernel: Option<BuiltinKernel>) -> (r: Result<(u64, u64), RiscvBootError>)
    requires
        kernel matches Some(k) ==> builtin_kernel_wf(k),
    ensures
        kernel is None ==> r == Err::<(u64, u64), RiscvBootError>(RiscvBootError::KernelRequired),
        kernel matches Some(k) ==> (r matches Ok(p) && p.0 == builtin_entry_of(k) && p.1 == (match k {
            BuiltinKernel::Elf { high_addr, .. } => high_addr,
            BuiltinKernel::Raw { high_addr } => high_addr,
        })),
{
    match kernel {
        None => Err(RiscvBootError::KernelRequired),
        Some(BuiltinKernel::Raw { high_addr }) => Ok((RAM_BASE, high_addr)),
        Some(BuiltinKernel::Elf { entry, bias, start_sym, alt_start_sym, high_addr }) => {
            let e = builtin_elf_entry(entry, bias, start_sym, alt_start_sym);
            Ok((e, high_addr))
        },
    }
}

/// What builtin boot sets up once the device tree of `fdt_len` bytes is
/// built: where the tree goes, hart 0's state, and the halt word left in
/// the mask ROM.
#[derive(Debug, Clone, Copy, PartialEq, Eq, Structural)]
pub struct BuiltinBootPlan {
    pub fdt_addr: u64,
    pub cpu: BuiltinCpuState,
    pub mrom_word: u32,
}

/// Finish builtin boot for a kernel entered at `entry`: the device tree
/// near the top of RAM (failing when larger than RAM), hart 0 in
/// supervisor mode at the entry with a1 pointing at the tree, and the
/// halt word in the mask ROM.
pub fn builtin_boot_finish(entry: u64, fdt_len: u64, ram_size: u64) -> (r: Result<BuiltinBootPlan, RiscvBootError>)
    requires
        fdt_len <= ram_size ==> fdt_len + FDT_MARGIN <= ram_size,
        RAM_BASE + ram_size <= u64::MAX,
    ensures
        fdt_len > ram_size ==> r == Err::<BuiltinBootPlan, RiscvBootError>(RiscvBootError::FdtTooLarge),
        fdt_len <= ram_size ==> r == Ok::<BuiltinBootPlan, RiscvBootError>(
            BuiltinBootPlan {
                fdt_addr: fdt_load_addr(fdt_len, ram_size),
                cpu: BuiltinCpuState {
                    priv_level: PrivLevel::Supervisor,
                    pc: entry,
                    a0: 0,
                    a1: fdt_load_addr(fdt_len, ram_size),
                    mideleg: 0x0222,
                    medeleg: 0xB1FF,
                    mie: 0x80,
                    pmpaddr0: u64::MAX,
                    pmpcfg0: 0x1F,
                },
                mrom_word: BUILTIN_MROM_HALT,
            },
        ),
{
    let fdt_addr = place_fdt(fdt_len, ram_size)?;
    let cpu = builtin_cpu_state(entry, fdt_addr);
    Ok(BuiltinBootPlan { fdt_addr, cpu, mrom_word: BUILTIN_MROM_HALT })
}

/// Hart 0's start after a firmware boot of the reference board: the
/// reset vector in the mask ROM, in machine mode.
pub fn ref_boot_hart_start() -> (r: (u64, PrivLevel))
    ensures
        r == (crate::ref_machine::MROM_BASE, PrivLevel::Machine),
{
    (crate::ref_machine::MROM_BASE, PrivLevel::Machine)
}

/// The reference board needs some RAM: `false` for a zero size.
pub fn ref_ram_size_ok(ram_size: u64) -> (r: bool)
    ensures
        r == (ram_size > 0),
{
    ram_size > 0
}

} // verus!
