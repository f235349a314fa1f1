//! LoongArch direct kernel boot planning.
//!
//! Decides where a kernel image (ELF, Linux Image or raw) is placed in
//! guest RAM, checks every placement against the RAM window, lays out
//! the boot-parameter window (command line, FDT, EFI system table,
//! config table, memory map, initrd table) and computes the low-RAM
//! reserved and usable ranges reported to the kernel.
use vstd::prelude::*;
use crate::bytes::{le_value, read_le_u16, read_le_u32, read_le_u64};

verus! {

/// Guest-physical base of LoongArch RAM (in the DMW-mapped window).
pub const VIRT_RAM_BASE: u64 = 0x9000_0000_0000_0000;
/// Default RAM size of the virt machine.
pub const VIRT_RAM_SIZE_DEFAULT: u64 = 256 * 1024 * 1024;
/// Default kernel entry when the image format is not recognised.
pub const KERNEL_ENTRY_DEFAULT: u64 = 0x9000_0000_0020_0000;
/// Entry point of the secondary-CPU boot stub.
pub const SECONDARY_BOOT_ENTRY: u64 = 0x9000_0000_0000_1000;

/// Mask that strips the DMW window bits of a guest address.
pub const LOW_PHYS_MASK: u64 = 0x0fff_ffff_ffff_ffff;
pub const LINUX_IMAGE_HEADER_SIZE: usize = 64;
pub const LINUX_IMAGE_MZ_MAGIC: u16 = 0x5a4d;
pub const LINUX_IMAGE_PE_MAGIC: u32 = 0x8182_23cd;
pub const EFI_ZBOOT_HEADER_SIZE: usize = 64;
pub const EFI_ZBOOT_MAX_DECOMPRESSED_SIZE: u64 = 256 * 1024 * 1024;
pub const BOOT_PARAM_WINDOW_SIZE: u64 = 0x2_0000;
pub const BOOT_FDT_OFFSET: u64 = 0x2000;
pub const BOOT_SYSTEM_TABLE_OFFSET: u64 = 0x1_0000;
pub const BOOT_CONFIG_TABLE_OFFSET: u64 = 0x1_1000;
pub const BOOT_MEMMAP_OFFSET: u64 = 0x1_2000;
pub const BOOT_INITRD_TABLE_OFFSET: u64 = 0x1_3000;
pub const COMMAND_LINE_SIZE: usize = 4096;
pub const BOOT_DATA_ALIGN: u64 = 0x1000;
pub const EFI_BOOT_MODE: u64 = 1;
pub const EFI_SYSTEM_TABLE_SIGNATURE: u64 = 0x5453_5953_2049_4249;
pub const EFI_SPECIFICATION_VERSION: u32 = 0x0002_0064;
pub const EFI_SYSTEM_TABLE_SIZE: usize = 120;
pub const EFI_CONFIG_TABLE_SIZE: usize = 24;
pub const EFI_BOOT_MEMMAP_SIZE: usize = 40;
pub const EFI_MEMORY_DESC_SIZE: usize = 40;
pub const EFI_MEMORY_DESC_VERSION: u32 = 1;
pub const EFI_RESERVED_MEMORY: u32 = 0;
pub const EFI_CONVENTIONAL_MEMORY: u32 = 7;
pub const EFI_PAGE_SIZE: u64 = 4096;
pub const ELF64_EHDR_SIZE: usize = 64;
pub const ELF64_PHDR_SIZE: usize = 56;
pub const ET_EXEC: u16 = 2;
pub const ET_DYN: u16 = 3;
pub const PT_LOAD: u32 = 1;
/// Number of instructions of the secondary-CPU boot stub.
pub const SECONDARY_BOOT_CODE_LEN: usize = 30;
/// Size in bytes of the secondary-CPU boot stub.
pub const SECONDARY_BOOT_CODE_SIZE: u64 = 120;

/// What a guest range holds; used in placement errors.
#[derive(Debug, Clone, Copy, PartialEq, Eq, Structural)]
pub enum RangeLabel {
    ElfEntry,
    ElfLoad,
    LinuxImageLoadOffset,
    LinuxImageEntry,
    LinuxImage,
    RawKernel,
    SecondaryBoot,
    BootData,
    Initrd,
    InitrdTable,
    CommandLine,
    Fdt,
    SystemTable,
    ConfigTable,
    BootMemmap,
    /// The kernel image handed to fw_cfg.
    FwCfgKernel,
}

/// Why a direct kernel boot cannot be planned.
#[derive(Debug, Clone, Copy, PartialEq, Eq, Structural)]
pub enum BootError {
    /// `VIRT_RAM_BASE + ram_size` overflows the address space.
    RamSizeOverflow,
    /// `start + len` of a range overflows the address space.
    RangeOverflow(RangeLabel),
    /// A range lies (partly) outside guest RAM.
    OutsideRam { label: RangeLabel, start: u64, end: u64 },
    /// Re-basing a canonical address into RAM overflows.
    CanonicalOverflow(RangeLabel),
    /// A Linux Image starts with "MZ" but is shorter than its header.
    ImageHeaderTooSmall,
    /// A Linux Image carries the wrong PE magic.
    BadPeMagic(u32),
    /// The ELF header is truncated.
    ElfTruncated,
    /// The ELF magic is wrong.
    BadElfMagic,
    /// Only ELF-64 kernels can be booted directly.
    NotElf64,
    /// The ELF type is neither ET_EXEC nor ET_DYN.
    UnsupportedElfType(u16),
    /// Program headers are smaller than an ELF-64 program header.
    PhentsizeTooSmall(u16),
    /// The relocated ELF entry overflows.
    ElfEntryOverflow,
    /// A program header offset overflows.
    PhdrOverflow,
    /// A program header lies outside the file.
    PhdrOutOfBounds,
    /// A PT_LOAD segment has filesz > memsz.
    SegmentFileszExceedsMemsz(u16),
    /// A PT_LOAD segment's file data lies outside the file.
    SegmentOutOfBounds(u16),
    /// A relocated PT_LOAD address overflows.
    LoadAddressOverflow,
    /// RAM is smaller than the boot-parameter window.
    RamTooSmall,
    /// Rounding up to the boot data alignment overflows.
    AlignOverflow,
    /// Two guest ranges overlap.
    Overlap { range: GuestRange, other: GuestRange },
    /// Placing the initrd below the boot data underflows.
    InitrdUnderflow,
    /// No non-overlapping RAM range below the boot data fits the initrd.
    InitrdNoRoom,
    /// The initrd cannot avoid a reserved range.
    InitrdOverlap(GuestRange),
    /// The kernel command line does not fit its buffer.
    CommandLineTooLong(usize),
    /// The generated FDT does not fit its window.
    FdtTooLarge(usize),
    /// Data handed to fw_cfg exceeds its 32-bit size field.
    FwCfgTooLarge(RangeLabel),
    /// The EFI zboot payload range overflows.
    ZbootPayloadOverflow,
    /// The EFI zboot payload lies outside the file.
    ZbootPayloadOutOfBounds,
    /// The EFI zboot compression is not gzip.
    ZbootUnsupportedCompression,
    /// The gzip payload could not be decompressed.
    ZbootDecompress,
    /// The decompressed image exceeds the size limit.
    ZbootTooLarge,
}

/// A half-open guest address range `[start, end)`.
#[derive(Debug, Clone, Copy, PartialEq, Eq, Structural)]
pub struct GuestRange {
    pub start: u64,
    pub end: u64,
    pub label: RangeLabel,
}

/// End of guest RAM for `ram_size` bytes.
pub open spec fn spec_ram_end(ram_size: u64) -> int {
    VIRT_RAM_BASE + ram_size
}

/// The outcome of checking that `[addr, addr+len)` lies in RAM.
pub open spec fn ram_range_check(addr: u64, len: u64, ram_size: u64, label: RangeLabel) -> Result<
    (),
    BootError,
> {
    if addr + len > u64::MAX {
        Err(BootError::RangeOverflow(label))
    } else if spec_ram_end(ram_size) > u64::MAX {
        Err(BootError::RamSizeOverflow)
    } else if addr < VIRT_RAM_BASE || addr + len > spec_ram_end(ram_size) {
        Err(BootError::OutsideRam { label, start: addr, end: (addr + len) as u64 })
    } else {
        Ok(())
    }
}

/// The outcome of `GuestRange::in_ram`.
pub open spec fn in_ram_spec(start: u64, len: u64, ram_size: u64, label: RangeLabel) -> Result<
    GuestRange,
    BootError,
> {
    match ram_range_check(start, len, ram_size, label) {
        Ok(_) => Ok(GuestRange { start, end: (start + len) as u64, label }),
        Err(e) => Err(e),
    }
}

/// Two ranges share at least one address.
pub open spec fn ranges_overlap(a: GuestRange, b: GuestRange) -> bool {
    a.start < b.end && b.start < a.end
}

/// Return the end of RAM, `VIRT_RAM_BASE + ram_size`.
pub fn ram_end(ram_size: u64) -> (r: Result<u64, BootError>)
    ensures
        spec_ram_end(ram_size) <= u64::MAX ==> r == Ok::<u64, BootError>(
            spec_ram_end(ram_size) as u64,
        ),
        spec_ram_end(ram_size) > u64::MAX ==> r == Err::<u64, BootError>(
            BootError::RamSizeOverflow,
        ),
{
    match VIRT_RAM_BASE.checked_add(ram_size) {
        Some(e) => Ok(e),
        None => Err(BootError::RamSizeOverflow),
    }
}

/// Strip the DMW window bits of a guest address (keep the low 60 bits).
pub fn boot_phys_addr(guest_addr: u64) -> (r: u64)
    ensures
        r as int == guest_addr as int % 0x1000_0000_0000_0000,
{
    let r = guest_addr & LOW_PHYS_MASK;
    assert(guest_addr & 0x0fff_ffff_ffff_ffffu64 == guest_addr % 0x1000_0000_0000_0000u64)
        by (bit_vector);
    r
}

/// Check that `[addr, addr+len)` lies inside guest RAM.
pub fn ensure_ram_range(addr: u64, len: u64, ram_size: u64, label: RangeLabel) -> (r: Result<
    (),
    BootError,
>)
    ensures
        r == ram_range_check(addr, len, ram_size, label),
{
    let end = match addr.checked_add(len) {
        Some(e) => e,
        None => {
            return Err(BootError::RangeOverflow(label));
        },
    };
    let ram_end = ram_end(ram_size)?;
    if addr < VIRT_RAM_BASE || end > ram_end {
        return Err(BootError::OutsideRam { label, start: addr, end });
    }
    Ok(())
}

/// The outcome of mapping `value` into guest RAM: addresses already in
/// RAM are kept; others are re-based from their low 60 bits.
pub open spec fn normalize_spec(value: u64, ram_size: u64, label: RangeLabel) -> Result<
    u64,
    BootError,
> {
    if spec_ram_end(ram_size) > u64::MAX {
        Err(BootError::RamSizeOverflow)
    } else if VIRT_RAM_BASE <= value < spec_ram_end(ram_size) {
        Ok(value)
    } else {
        let addr = VIRT_RAM_BASE + value as int % 0x1000_0000_0000_0000;
        if addr > u64::MAX {
            Err(BootError::CanonicalOverflow(label))
        } else {
            match ram_range_check(addr as u64, 1, ram_size, label) {
                Ok(_) => Ok(addr as u64),
                Err(e) => Err(e),
            }
        }
    }
}

/// Map a kernel-supplied address into guest RAM.
pub fn normalize_ram_addr(value: u64, ram_size: u64, label: RangeLabel) -> (r: Result<
    u64,
    BootError,
>)
    ensures
        r == normalize_spec(value, ram_size, label),
{
    let end = ram_end(ram_size)?;
    if VIRT_RAM_BASE <= value && value < end {
        return Ok(value);
    }
    let low = boot_phys_addr(value);
    let addr = match VIRT_RAM_BASE.checked_add(low) {
        Some(a) => a,
        None => {
            return Err(BootError::CanonicalOverflow(label));
        },
    };
    ensure_ram_range(addr, 1, ram_size, label)?;
    Ok(addr)
}

impl GuestRange {
    /// The range `[start, start+len)`, which must lie inside guest RAM.
    pub fn in_ram(start: u64, len: u64, ram_size: u64, label: RangeLabel) -> (r: Result<
        Self,
        BootError,
    >)
        ensures
            r == in_ram_spec(start, len, ram_size, label),
    {
        let end = match start.checked_add(len) {
            Some(e) => e,
            None => {
                return Err(BootError::RangeOverflow(label));
            },
        };
        ensure_ram_range(start, len, ram_size, label)?;
        Ok(GuestRange { start, end, label })
    }

    /// Whether the two ranges share an address.
    pub fn overlaps(self, other: Self) -> (r: bool)
        ensures
            r == ranges_overlap(self, other),
    {
        self.start < other.end && other.start < self.end
    }
}

/// Whether `data` starts with the ELF magic.
pub fn is_elf(data: &[u8]) -> (r: bool)
    ensures
        r == (data@.len() >= 4 && data@[0] == 0x7fu8 && data@[1] == 0x45u8 && data@[2] == 0x4cu8
            && data@[3] == 0x46u8),
{
    data.len() >= 4 && data[0] == 0x7f && data[1] == 0x45 && data[2] == 0x4c && data[3] == 0x46
}

/// The fields of a Linux Image header the loader uses.
#[derive(Debug, Clone, Copy, PartialEq, Eq, Structural)]
pub struct LinuxImageHeader {
    pub kernel_entry: u64,
    pub kernel_size: u64,
    pub load_offset: u64,
}

/// The outcome of parsing a Linux Image header: `None` when the data
/// does not start with "MZ".
pub open spec fn linux_header_spec(d: Seq<u8>) -> Result<Option<LinuxImageHeader>, BootError> {
    if d.len() < 2 || le_value(d, 0, 2) != LINUX_IMAGE_MZ_MAGIC {
        Ok(None)
    } else if d.len() < LINUX_IMAGE_HEADER_SIZE {
        Err(BootError::ImageHeaderTooSmall)
    } else if le_value(d, 56, 4) != LINUX_IMAGE_PE_MAGIC {
        Err(BootError::BadPeMagic(le_value(d, 56, 4) as u32))
    } else {
        Ok(
            Some(
                LinuxImageHeader {
                    kernel_entry: le_value(d, 8, 8) as u64,
                    kernel_size: le_value(d, 16, 8) as u64,
                    load_offset: le_value(d, 24, 8) as u64,
                },
            ),
        )
    }
}

/// Parse the header of a LoongArch Linux Image.
pub fn parse_linux_image_header(data: &[u8]) -> (r: Result<Option<LinuxImageHeader>, BootError>)
    ensures
        r == linux_header_spec(data@),
{
    if data.len() < 2 || read_le_u16(data, 0) != LINUX_IMAGE_MZ_MAGIC {
        return Ok(None);
    }
    if data.len() < LINUX_IMAGE_HEADER_SIZE {
        return Err(BootError::ImageHeaderTooSmall);
    }
    let pe_magic = read_le_u32(data, 56);
    if pe_magic != LINUX_IMAGE_PE_MAGIC {
        return Err(BootError::BadPeMagic(pe_magic));
    }
    Ok(
        Some(
            LinuxImageHeader {
                kernel_entry: read_le_u64(data, 8),
                kernel_size: read_le_u64(data, 16),
                load_offset: read_le_u64(data, 24),
            },
        ),
    )
}

/// How the planned kernel is copied into RAM.
#[derive(Debug, Clone, Copy, PartialEq, Eq, Structural)]
pub enum KernelLoadKind {
    Elf,
    LinuxImage { load_addr: u64 },
    Raw,
}

/// Where a kernel goes: its entry, the RAM ranges it occupies and how
/// it is loaded.
#[derive(Debug)]
pub struct KernelLoadPlan {
    pub entry: u64,
    pub ranges: Vec<GuestRange>,
    pub kind: KernelLoadKind,
}

/// Offset of program header `i`, or `None` when it overflows.
pub open spec fn phdr_offset(phoff: int, phentsize: int, i: int) -> Option<int> {
    if i * phentsize > usize::MAX || phoff + i * phentsize > usize::MAX {
        None
    } else {
        Some(phoff + i * phentsize)
    }
}

/// Processing program header `i`: PT_LOAD segments add a RAM range.
pub open spec fn elf_step(
    d: Seq<u8>,
    is_dyn: bool,
    base: u64,
    ram_size: u64,
    phoff: int,
    phentsize: int,
    i: int,
    rs: Seq<GuestRange>,
) -> Result<Seq<GuestRange>, BootError> {
    match phdr_offset(phoff, phentsize, i) {
        None => Err(BootError::PhdrOverflow),
        Some(off) => if off + ELF64_PHDR_SIZE > usize::MAX || off + ELF64_PHDR_SIZE > d.len() {
            Err(BootError::PhdrOutOfBounds)
        } else if le_value(d, off, 4) != PT_LOAD {
            Ok(rs)
        } else {
            let p_offset = le_value(d, off + 8, 8);
            let p_vaddr = le_value(d, off + 16, 8);
            let p_paddr = le_value(d, off + 24, 8);
            let p_filesz = le_value(d, off + 32, 8);
            let p_memsz = le_value(d, off + 40, 8);
            if p_filesz > p_memsz {
                Err(BootError::SegmentFileszExceedsMemsz(i as u16))
            } else if p_offset + p_filesz > usize::MAX || p_offset + p_filesz > d.len() {
                Err(BootError::SegmentOutOfBounds(i as u16))
            } else if is_dyn && base + p_vaddr > u64::MAX {
                Err(BootError::LoadAddressOverflow)
            } else {
                let load_addr = if is_dyn {
                    (base + p_vaddr) as u64
                } else {
                    p_paddr as u64
                };
                match in_ram_spec(load_addr, p_memsz as u64, ram_size, RangeLabel::ElfLoad) {
                    Ok(g) => Ok(rs.push(g)),
                    Err(e) => Err(e),
                }
            }
        },
    }
}

/// The ranges of the first `k` program headers, or the first error.
pub open spec fn elf_scan(
    d: Seq<u8>,
    is_dyn: bool,
    base: u64,
    ram_size: u64,
    phoff: int,
    phentsize: int,
    k: nat,
) -> Result<Seq<GuestRange>, BootError>
    decreases k,
{
    if k == 0 {
        Ok(Seq::empty())
    } else {
        match elf_scan(d, is_dyn, base, ram_size, phoff, phentsize, (k - 1) as nat) {
            Ok(rs) => elf_step(d, is_dyn, base, ram_size, phoff, phentsize, k - 1, rs),
            Err(e) => Err(e),
        }
    }
}

/// The load plan of an ELF-64 kernel: its entry and the RAM ranges of
/// its PT_LOAD segments (relocated by `base` for ET_DYN images).
pub open spec fn elf_plan(d: Seq<u8>, base: u64, ram_size: u64) -> Result<
    (u64, Seq<GuestRange>),
    BootError,
> {
    if d.len() < ELF64_EHDR_SIZE {
        Err(BootError::ElfTruncated)
    } else if !(d[0] == 0x7fu8 && d[1] == 0x45u8 && d[2] == 0x4cu8 && d[3] == 0x46u8) {
        Err(BootError::BadElfMagic)
    } else if d[4] != 2u8 {
        Err(BootError::NotElf64)
    } else {
        let e_type = le_value(d, 16, 2);
        if e_type != ET_EXEC && e_type != ET_DYN {
            Err(BootError::UnsupportedElfType(e_type as u16))
        } else {
            let is_dyn = e_type == ET_DYN;
            let e_entry = le_value(d, 24, 8);
            let phoff = le_value(d, 32, 8);
            let phentsize = le_value(d, 54, 2);
            let phnum = le_value(d, 56, 2);
            if phentsize < ELF64_PHDR_SIZE {
                Err(BootError::PhentsizeTooSmall(phentsize as u16))
            } else if is_dyn && base + e_entry > u64::MAX {
                Err(BootError::ElfEntryOverflow)
            } else {
                let entry = if is_dyn {
                    (base + e_entry) as u64
                } else {
                    e_entry as u64
                };
                match ram_range_check(entry, 1, ram_size, RangeLabel::ElfEntry) {
                    Err(e) => Err(e),
                    Ok(_) => match elf_scan(
                        d,
                        is_dyn,
                        base,
                        ram_size,
                        phoff as int,
                        phentsize as int,
                        phnum,
                    ) {
                        Ok(rs) => Ok((entry, rs)),
                        Err(e) => Err(e),
                    },
                }
            }
        }
    }
}

/// Plan the placement of an ELF-64 kernel.
pub fn analyze_elf_kernel(data: &[u8], base_addr: u64, ram_size: u64) -> (r: Result<
    KernelLoadPlan,
    BootError,
>)
    ensures
        match elf_plan(data@, base_addr, ram_size) {
            Ok((entry, rs)) => r matches Ok(p) && p.entry == entry && p.ranges@ == rs && p.kind
                == KernelLoadKind::Elf,
            Err(e) => r matches Err(e2) && e2 == e,
        },
{
    if data.len() < ELF64_EHDR_SIZE {
        return Err(BootError::ElfTruncated);
    }
    if !(data[0] == 0x7f && data[1] == 0x45 && data[2] == 0x4c && data[3] == 0x46) {
        return Err(BootError::BadElfMagic);
    }
    if data[4] != 2 {
        return Err(BootError::NotElf64);
    }
    let e_type = read_le_u16(data, 16);
    if e_type != ET_EXEC && e_type != ET_DYN {
        return Err(BootError::UnsupportedElfType(e_type));
    }
    let is_dyn = e_type == ET_DYN;
    let e_entry = read_le_u64(data, 24);
    let e_phoff64 = read_le_u64(data, 32);
    let e_phentsize16 = read_le_u16(data, 54);
    let e_phentsize = e_phentsize16 as usize;
    let e_phnum = read_le_u16(data, 56) as usize;
    if e_phentsize < ELF64_PHDR_SIZE {
        return Err(BootError::PhentsizeTooSmall(e_phentsize16));
    }
    let entry = if is_dyn {
        match base_addr.checked_add(e_entry) {
            Some(e) => e,
            None => {
                return Err(BootError::ElfEntryOverflow);
            },
        }
    } else {
        e_entry
    };
    ensure_ram_range(entry, 1, ram_size, RangeLabel::ElfEntry)?;
    let ghost phoff = e_phoff64 as int;
    let ghost phentsize = e_phentsize as int;
    let ghost plan_tail = match elf_scan(
        data@,
        is_dyn,
        base_addr,
        ram_size,
        phoff,
        phentsize,
        e_phnum as nat,
    ) {
        Ok(rs) => Ok::<(u64, Seq<GuestRange>), BootError>((entry, rs)),
        Err(e) => Err::<(u64, Seq<GuestRange>), BootError>(e),
    };
    assert(elf_plan(data@, base_addr, ram_size) == plan_tail);
    let mut ranges: Vec<GuestRange> = Vec::new();
    let mut i: usize = 0;
    while i < e_phnum
        invariant
            elf_plan(data@, base_addr, ram_size) == plan_tail,
            plan_tail == match elf_scan(
                data@,
                is_dyn,
                base_addr,
                ram_size,
                phoff,
                phentsize,
                e_phnum as nat,
            ) {
                Ok(rs) => Ok::<(u64, Seq<GuestRange>), BootError>((entry, rs)),
                Err(e) => Err::<(u64, Seq<GuestRange>), BootError>(e),
            },
            i <= e_phnum,
            e_phnum <= 0xffff,
            phoff == e_phoff64 as int,
            phentsize == e_phentsize as int,
            elf_scan(data@, is_dyn, base_addr, ram_size, phoff, phentsize, i as nat) == Ok::<
                Seq<GuestRange>,
                BootError,
            >(ranges@),
        decreases e_phnum - i,
    {
        let ghost before = ranges@;
        let step = elf_phdr(data, is_dyn, base_addr, ram_size, e_phoff64, e_phentsize, i);
        proof {
            assert(elf_scan(data@, is_dyn, base_addr, ram_size, phoff, phentsize, (i + 1) as nat)
                == elf_step(data@, is_dyn, base_addr, ram_size, phoff, phentsize, i as int, before));
        }
        match step {
            Ok(Some(g)) => {
                ranges.push(g);
            },
            Ok(None) => {},
            Err(e) => {
                proof {
                    lemma_elf_scan_err_persists(
                        data@,
                        is_dyn,
                        base_addr,
                        ram_size,
                        phoff,
                        phentsize,
                        (i + 1) as nat,
                        e_phnum as nat,
                    );
                    assert(elf_scan(data@, is_dyn, base_addr, ram_size, phoff, phentsize, (i + 1) as nat) == Err::<Seq<GuestRange>, BootError>(e));
                    assert(elf_scan(data@, is_dyn, base_addr, ram_size, phoff, phentsize, e_phnum as nat) == Err::<Seq<GuestRange>, BootError>(e));
                    assert(elf_plan(data@, base_addr, ram_size) == Err::<(u64, Seq<GuestRange>), BootError>(e));
                }
                return Err(e);
            },
        }
        i = i + 1;
    }
    Ok(KernelLoadPlan { entry, ranges, kind: KernelLoadKind::Elf })
}

/// Once the scan of program headers fails, scanning more headers
/// fails with the same error.
proof fn lemma_elf_scan_err_persists(
    d: Seq<u8>,
    is_dyn: bool,
    base: u64,
    ram_size: u64,
    phoff: int,
    phentsize: int,
    k: nat,
    m: nat,
)
    requires
        k <= m,
        elf_scan(d, is_dyn, base, ram_size, phoff, phentsize, k) is Err,
    ensures
        elf_scan(d, is_dyn, base, ram_size, phoff, phentsize, m) == elf_scan(
            d,
            is_dyn,
            base,
            ram_size,
            phoff,
            phentsize,
            k,
        ),
    decreases m - k,
{
    if k < m {
        lemma_elf_scan_err_persists(d, is_dyn, base, ram_size, phoff, phentsize, k, (m - 1) as nat);
    }
}

/// Process program header `i`: `Some(range)` for a PT_LOAD segment,
/// `None` for any other header.
fn elf_phdr(
    data: &[u8],
    is_dyn: bool,
    base_addr: u64,
    ram_size: u64,
    e_phoff64: u64,
    e_phentsize: usize,
    i: usize,
) -> (r: Result<Option<GuestRange>, BootError>)
    requires
        i <= 0xffff,
    ensures
        forall|rs: Seq<GuestRange>|
            #![trigger elf_step(data@, is_dyn, base_addr, ram_size, e_phoff64 as int, e_phentsize as int, i as int, rs)]
            elf_step(
                data@,
                is_dyn,
                base_addr,
                ram_size,
                e_phoff64 as int,
                e_phentsize as int,
                i as int,
                rs,
            ) == match r {
                Ok(Some(g)) => Ok::<Seq<GuestRange>, BootError>(rs.push(g)),
                Ok(None) => Ok::<Seq<GuestRange>, BootError>(rs),
                Err(e) => Err::<Seq<GuestRange>, BootError>(e),
            },
{
    let step = match i.checked_mul(e_phentsize) {
        Some(s) => s,
        None => {
            return Err(BootError::PhdrOverflow);
        },
    };
    if e_phoff64 > usize::MAX as u64 {
        proof {
            assert(i as int * e_phentsize as int >= 0) by (nonlinear_arith);
        }
        return Err(BootError::PhdrOverflow);
    }
    let e_phoff = e_phoff64 as usize;
    let off = match e_phoff.checked_add(step) {
        Some(o) => o,
        None => {
            return Err(BootError::PhdrOverflow);
        },
    };
    if off > usize::MAX - ELF64_PHDR_SIZE || off + ELF64_PHDR_SIZE > data.len() {
        return Err(BootError::PhdrOutOfBounds);
    }
    if read_le_u32(data, off) != PT_LOAD {
        return Ok(None);
    }
    let p_offset64 = read_le_u64(data, off + 8);
    let p_vaddr = read_le_u64(data, off + 16);
    let p_paddr = read_le_u64(data, off + 24);
    let p_filesz = read_le_u64(data, off + 32);
    let p_memsz = read_le_u64(data, off + 40);
    if p_filesz > p_memsz {
        return Err(BootError::SegmentFileszExceedsMemsz(i as u16));
    }
    if p_offset64 > usize::MAX as u64 || p_filesz > usize::MAX as u64 {
        return Err(BootError::SegmentOutOfBounds(i as u16));
    }
    let p_offset = p_offset64 as usize;
    let fsz = p_filesz as usize;
    if p_offset > usize::MAX - fsz || p_offset + fsz > data.len() {
        return Err(BootError::SegmentOutOfBounds(i as u16));
    }
    let load_addr = if is_dyn {
        match base_addr.checked_add(p_vaddr) {
            Some(a) => a,
            None => {
                return Err(BootError::LoadAddressOverflow);
            },
        }
    } else {
        p_paddr
    };
    let g = GuestRange::in_ram(load_addr, p_memsz, ram_size, RangeLabel::ElfLoad)?;
    Ok(Some(g))
}

/// Plan the placement of a Linux Image kernel: it is copied to its
/// load offset and entered at its entry, both mapped into RAM.
pub fn analyze_linux_image_kernel(data: &[u8], header: LinuxImageHeader, ram_size: u64) -> (r:
    Result<KernelLoadPlan, BootError>)
    ensures
        ({
            let load = normalize_spec(header.load_offset, ram_size, RangeLabel::LinuxImageLoadOffset);
            let entry = normalize_spec(header.kernel_entry, ram_size, RangeLabel::LinuxImageEntry);
            let len = if data@.len() >= header.kernel_size {
                data@.len() as u64
            } else {
                header.kernel_size
            };
            match load {
                Err(e) => r matches Err(e2) && e2 == e,
                Ok(la) => match entry {
                    Err(e) => r matches Err(e2) && e2 == e,
                    Ok(en) => match in_ram_spec(la, len, ram_size, RangeLabel::LinuxImage) {
                        Err(e) => r matches Err(e2) && e2 == e,
                        Ok(g) => r matches Ok(p) && p.entry == en && p.ranges@ == seq![g]
                            && p.kind == (KernelLoadKind::LinuxImage { load_addr: la }),
                    },
                },
            }
        }),
{
    let load_addr = normalize_ram_addr(
        header.load_offset,
        ram_size,
        RangeLabel::LinuxImageLoadOffset,
    )?;
    let entry = normalize_ram_addr(header.kernel_entry, ram_size, RangeLabel::LinuxImageEntry)?;
    let dlen = data.len() as u64;
    let load_len = if dlen >= header.kernel_size {
        dlen
    } else {
        header.kernel_size
    };
    let range = GuestRange::in_ram(load_addr, load_len, ram_size, RangeLabel::LinuxImage)?;
    let mut ranges: Vec<GuestRange> = Vec::new();
    ranges.push(range);
    proof {
        assert(ranges@ =~= seq![range]);
    }
    Ok(KernelLoadPlan { entry, ranges, kind: KernelLoadKind::LinuxImage { load_addr } })
}

/// Plan the placement of a raw kernel image at the default entry.
pub fn analyze_raw_kernel(data: &[u8], ram_size: u64) -> (r: Result<KernelLoadPlan, BootError>)
    ensures
        match in_ram_spec(KERNEL_ENTRY_DEFAULT, data@.len() as u64, ram_size, RangeLabel::RawKernel) {
            Err(e) => r matches Err(e2) && e2 == e,
            Ok(g) => r matches Ok(p) && p.entry == KERNEL_ENTRY_DEFAULT && p.ranges@ == seq![g]
                && p.kind == KernelLoadKind::Raw,
        },
{
    let range = GuestRange::in_ram(
        KERNEL_ENTRY_DEFAULT,
        data.len() as u64,
        ram_size,
        RangeLabel::RawKernel,
    )?;
    let mut ranges: Vec<GuestRange> = Vec::new();
    ranges.push(range);
    proof {
        assert(ranges@ =~= seq![range]);
    }
    Ok(KernelLoadPlan { entry: KERNEL_ENTRY_DEFAULT, ranges, kind: KernelLoadKind::Raw })
}

/// Whether a kernel image of `len` bytes can be handed to fw_cfg, whose
/// size field is 32 bits wide.
pub fn check_fw_cfg_kernel(len: usize) -> (r: Result<(), BootError>)
    ensures
        len <= u32::MAX ==> r is Ok,
        len > u32::MAX ==> r == Err::<(), BootError>(BootError::FwCfgTooLarge(RangeLabel::FwCfgKernel)),
{
    if len as u64 > 0xffff_ffffu64 {
        return Err(BootError::FwCfgTooLarge(RangeLabel::FwCfgKernel));
    }
    Ok(())
}

/// Base of the boot-parameter window: the last 128 KiB of RAM.
pub fn boot_param_base(ram_size: u64) -> (r: Result<u64, BootError>)
    ensures
        ram_size < BOOT_PARAM_WINDOW_SIZE ==> r == Err::<u64, BootError>(BootError::RamTooSmall),
        ram_size >= BOOT_PARAM_WINDOW_SIZE && spec_ram_end(ram_size) > u64::MAX ==> r == Err::<
            u64,
            BootError,
        >(BootError::RamSizeOverflow),
        ram_size >= BOOT_PARAM_WINDOW_SIZE && spec_ram_end(ram_size) <= u64::MAX ==> r == Ok::<
            u64,
            BootError,
        >((spec_ram_end(ram_size) - BOOT_PARAM_WINDOW_SIZE) as u64),
{
    if ram_size < BOOT_PARAM_WINDOW_SIZE {
        return Err(BootError::RamTooSmall);
    }
    let end = ram_end(ram_size)?;
    Ok(end - BOOT_PARAM_WINDOW_SIZE)
}

/// The page reserved for the secondary-CPU boot stub (only with more
/// than one CPU).
pub fn secondary_boot_reserved_range(ram_size: u64, cpu_count: u32) -> (r: Result<
    Option<GuestRange>,
    BootError,
>)
    ensures
        cpu_count <= 1 ==> r == Ok::<Option<GuestRange>, BootError>(None),
        cpu_count > 1 ==> match in_ram_spec(
            SECONDARY_BOOT_ENTRY,
            EFI_PAGE_SIZE,
            ram_size,
            RangeLabel::SecondaryBoot,
        ) {
            Ok(g) => r == Ok::<Option<GuestRange>, BootError>(Some(g)),
            Err(e) => r == Err::<Option<GuestRange>, BootError>(e),
        },
{
    if cpu_count <= 1 {
        return Ok(None);
    }
    let g = GuestRange::in_ram(SECONDARY_BOOT_ENTRY, EFI_PAGE_SIZE, ram_size, RangeLabel::SecondaryBoot)?;
    Ok(Some(g))
}

/// `align` is a power of two.
pub open spec fn is_pow2(align: u64) -> bool {
    align > 0 && align & ((align - 1) as u64) == 0
}

/// The EFI page size is a power of two.
pub proof fn lemma_page_size_pow2()
    ensures
        is_pow2(EFI_PAGE_SIZE),
        is_pow2(BOOT_DATA_ALIGN),
{
    assert(4096u64 & 4095u64 == 0) by (bit_vector);
}

/// Round `value` down to a multiple of the power of two `align`.
pub fn align_down(value: u64, align: u64) -> (r: u64)
    requires
        is_pow2(align),
    ensures
        r as int == value as int - value as int % align as int,
{
    let rem = value % align;
    assert(rem <= value) by (nonlinear_arith)
        requires
            rem == value % align,
            align > 0,
    ;
    value - rem
}

/// Round `value` up to a multiple of the power of two `align`.
pub fn align_up(value: u64, align: u64) -> (r: Result<u64, BootError>)
    requires
        is_pow2(align),
    ensures
        value + align - 1 > u64::MAX ==> r == Err::<u64, BootError>(BootError::AlignOverflow),
        value + align - 1 <= u64::MAX ==> r == Ok::<u64, BootError>(
            ((value + align - 1) - (value + align - 1) % (align as int)) as u64,
        ),
{
    match value.checked_add(align - 1) {
        Some(v) => Ok(align_down(v, align)),
        None => Err(BootError::AlignOverflow),
    }
}

/// Fail when `range` overlaps any of the `reserved` ranges.
pub fn reject_overlap(range: GuestRange, reserved: &[GuestRange]) -> (r: Result<(), BootError>)
    ensures
        r is Ok <==> forall|i: int|
            0 <= i < reserved@.len() ==> !ranges_overlap(range, #[trigger] reserved@[i]),
        r matches Err(e) ==> exists|i: int|
            0 <= i < reserved@.len() && ranges_overlap(range, #[trigger] reserved@[i])
                && e == (BootError::Overlap { range, other: reserved@[i] }) && forall|j: int|
                0 <= j < i ==> !ranges_overlap(range, #[trigger] reserved@[j]),
{
    let mut i: usize = 0;
    while i < reserved.len()
        invariant
            i <= reserved@.len(),
            forall|j: int| 0 <= j < i ==> !ranges_overlap(range, #[trigger] reserved@[j]),
        decreases reserved.len() - i,
    {
        let other = reserved[i];
        if range.overlaps(other) {
            return Err(BootError::Overlap { range, other });
        }
        i = i + 1;
    }
    Ok(())
}

/// The 16-byte `reg` cells (two 64-bit big-endian cells each for base
/// and size) of one region.
pub open spec fn reg_cells_of(base: u64, size: u64) -> Seq<u8> {
    crate::bytes::be_bytes(base as nat, 8) + crate::bytes::be_bytes(size as nat, 8)
}

/// The concatenated `reg` cells of `regions`.
pub open spec fn reg_cells_spec(regions: Seq<(u64, u64)>) -> Seq<u8>
    decreases regions.len(),
{
    if regions.len() == 0 {
        Seq::empty()
    } else {
        reg_cells_spec(regions.drop_last()) + reg_cells_of(regions.last().0, regions.last().1)
    }
}

/// Encode `regions` as FDT `reg` cells with 2 address and 2 size cells.
pub fn make_reg_cells(regions: &[(u64, u64)]) -> (r: Vec<u8>)
    ensures
        r@ == reg_cells_spec(regions@),
{
    let mut data: Vec<u8> = Vec::new();
    let mut i: usize = 0;
    while i < regions.len()
        invariant
            i <= regions@.len(),
            data@ == reg_cells_spec(regions@.take(i as int)),
        decreases regions.len() - i,
    {
        let (base, size) = regions[i];
        let ghost prev = data@;
        crate::bytes::push_be_u64(&mut data, base);
        crate::bytes::push_be_u64(&mut data, size);
        proof {
            assert(regions@.take(i + 1).drop_last() =~= regions@.take(i as int));
            assert(data@ =~= prev + reg_cells_of(base, size));
        }
        i = i + 1;
    }
    proof {
        assert(regions@.take(i as int) =~= regions@);
    }
    data
}

/// The `ranges` cells of the ISA bridge: I/O space flag, 64-bit child
/// address, and size.
pub fn isa_io_range_cells(base: u64, size: u32) -> (r: [u32; 5])
    ensures
        r@ == seq![1u32, 0u32, (base / 0x1_0000_0000) as u32, (base % 0x1_0000_0000) as u32, size],
{
    let r = [1u32, 0u32, (base / 0x1_0000_0000) as u32, (base % 0x1_0000_0000) as u32, size];
    proof {
        assert(r@ =~= seq![1u32, 0u32, (base / 0x1_0000_0000) as u32, (base % 0x1_0000_0000) as u32, size]);
    }
    r
}

/// Build the EFI system table handed to the kernel.
pub fn build_efi_system_table(nr_tables: u64, config_table_addr: u64) -> (r: Vec<u8>)
    ensures
        r@.len() == EFI_SYSTEM_TABLE_SIZE,
        r@.subrange(0, 8) == crate::bytes::le_bytes(EFI_SYSTEM_TABLE_SIGNATURE as nat, 8),
        r@.subrange(8, 12) == crate::bytes::le_bytes(EFI_SPECIFICATION_VERSION as nat, 4),
        r@.subrange(12, 16) == crate::bytes::le_bytes(EFI_SYSTEM_TABLE_SIZE as nat, 4),
        r@.subrange(32, 36) == crate::bytes::le_bytes(0x0001_0000, 4),
        r@.subrange(104, 112) == crate::bytes::le_bytes(nr_tables as nat, 8),
        r@.subrange(112, 120) == crate::bytes::le_bytes(config_table_addr as nat, 8),
        forall|i: int|
            (16 <= i < 32 || 36 <= i < 104) ==> #[trigger] r@[i] == 0u8,
{
    let mut table: Vec<u8> = vec![0u8; EFI_SYSTEM_TABLE_SIZE];
    crate::bytes::put_le_u64(table.as_mut_slice(), 0, EFI_SYSTEM_TABLE_SIGNATURE);
    crate::bytes::put_le_u32(table.as_mut_slice(), 8, EFI_SPECIFICATION_VERSION);
    crate::bytes::put_le_u32(table.as_mut_slice(), 12, EFI_SYSTEM_TABLE_SIZE as u32);
    crate::bytes::put_le_u32(table.as_mut_slice(), 32, 0x0001_0000);
    crate::bytes::put_le_u64(table.as_mut_slice(), 104, nr_tables);
    crate::bytes::put_le_u64(table.as_mut_slice(), 112, config_table_addr);
    proof {
        crate::bytes::lemma_le_bytes_len(EFI_SYSTEM_TABLE_SIGNATURE as nat, 8);
        crate::bytes::lemma_le_bytes_len(EFI_SPECIFICATION_VERSION as nat, 4);
        crate::bytes::lemma_le_bytes_len(EFI_SYSTEM_TABLE_SIZE as nat, 4);
        crate::bytes::lemma_le_bytes_len(0x0001_0000, 4);
        crate::bytes::lemma_le_bytes_len(nr_tables as nat, 8);
        crate::bytes::lemma_le_bytes_len(config_table_addr as nat, 8);
        assert(table@.subrange(0, 8) =~= crate::bytes::le_bytes(EFI_SYSTEM_TABLE_SIGNATURE as nat, 8));
        assert(table@.subrange(8, 12) =~= crate::bytes::le_bytes(EFI_SPECIFICATION_VERSION as nat, 4));
        assert(table@.subrange(12, 16) =~= crate::bytes::le_bytes(EFI_SYSTEM_TABLE_SIZE as nat, 4));
        assert(table@.subrange(32, 36) =~= crate::bytes::le_bytes(0x0001_0000, 4));
        assert(table@.subrange(104, 112) =~= crate::bytes::le_bytes(nr_tables as nat, 8));
        assert(table@.subrange(112, 120) =~= crate::bytes::le_bytes(config_table_addr as nat, 8));
    }
    table
}

/// Append one EFI configuration table entry (GUID, table address).
pub fn append_config_table(entries: &mut Vec<u8>, guid: [u8; 16], table: u64)
    ensures
        final(entries)@ == old(entries)@ + guid@ + crate::bytes::le_bytes(table as nat, 8),
{
    let mut i: usize = 0;
    while i < 16
        invariant
            i <= 16,
            entries@ == old(entries)@ + guid@.take(i as int),
        decreases 16 - i,
    {
        entries.push(guid[i]);
        i = i + 1;
        proof {
            assert(entries@ =~= old(entries)@ + guid@.take(i as int));
        }
    }
    proof {
        assert(guid@.take(16) =~= guid@);
    }
    crate::bytes::push_le_u64(entries, table);
}

/// Build the EFI initrd media table (start, size).
pub fn build_initrd_table(initrd: (u64, u64)) -> (r: Vec<u8>)
    ensures
        r@ == crate::bytes::le_bytes(initrd.0 as nat, 8) + crate::bytes::le_bytes(initrd.1 as nat, 8),
{
    let mut table: Vec<u8> = Vec::new();
    crate::bytes::push_le_u64(&mut table, initrd.0);
    crate::bytes::push_le_u64(&mut table, initrd.1);
    proof {
        assert(table@ =~= crate::bytes::le_bytes(initrd.0 as nat, 8) + crate::bytes::le_bytes(initrd.1 as nat, 8));
    }
    table
}

/// `v` rounded down to the EFI page size.
pub open spec fn page_down(v: int) -> int {
    v - v % 4096
}

/// The page-aligned `[start, end)` window reserved for `size` bytes at
/// `base`; the end saturates at `u64::MAX`.
pub open spec fn reserved_window(base: u64, size: u64) -> (int, int) {
    let top = if base + size > u64::MAX {
        u64::MAX as int
    } else {
        base + size
    };
    let end = if top + 4095 > u64::MAX {
        u64::MAX as int
    } else {
        page_down(top + 4095)
    };
    (page_down(base as int), end)
}

/// Append the page-aligned window of `[base, base+size)` unless it is
/// empty.
fn push_reserved_range(ranges: &mut Vec<(u64, u64)>, base: u64, size: u64)
    ensures
        ({
            let (s, e) = reserved_window(base, size);
            if s < e {
                final(ranges)@ == old(ranges)@.push((s as u64, e as u64))
            } else {
                final(ranges)@ == old(ranges)@
            }
        }),
{
    proof {
        lemma_page_size_pow2();
    }
    let start = align_down(base, EFI_PAGE_SIZE);
    let top = base.saturating_add(size);
    let end = match align_up(top, EFI_PAGE_SIZE) {
        Ok(e) => e,
        Err(_) => u64::MAX,
    };
    if start < end {
        ranges.push((start, end));
    }
}

/// `a` lies in one of the half-open `[start, end)` pairs.
pub open spec fn in_pairs(p: Seq<(u64, u64)>, a: int) -> bool {
    exists|j: int| 0 <= j < p.len() && (#[trigger] p[j]).0 <= a < p[j].1
}

/// `a` lies in one of the `(base, size)` regions.
pub open spec fn in_regions(p: Seq<(u64, u64)>, a: int) -> bool {
    exists|j: int| 0 <= j < p.len() && (#[trigger] p[j]).0 <= a < p[j].0 + p[j].1
}

/// `a` lies in the reserved window of one of the `(base, size)` entries.
pub open spec fn in_windows(w: Seq<(u64, u64)>, a: int) -> bool {
    exists|j: int|
        0 <= j < w.len() && reserved_window((#[trigger] w[j]).0, w[j].1).0 <= a < reserved_window(
            w[j].0,
            w[j].1,
        ).1
}

/// Regions sorted by base, non-empty, separated by gaps, and ending at
/// or below `limit`.
pub open spec fn canonical_regions(p: Seq<(u64, u64)>, limit: int) -> bool {
    &&& forall|k: int| 0 <= k < p.len() ==> (#[trigger] p[k]).1 > 0 && p[k].0 + p[k].1 <= limit
    &&& forall|k: int, l: int|
        0 <= k < l < p.len() ==> (#[trigger] p[k]).0 + p[k].1 < (#[trigger] p[l]).0
}

/// The device windows of the low 4 GiB that the kernel must not use as
/// RAM, and the per-CPU legacy IPI mailboxes.
pub struct LowRamLayout {
    /// `(base, size)` of every fixed device window.
    pub windows: Vec<(u64, u64)>,
    /// Base of the legacy IPI mailbox area.
    pub legacy_ipi_base: u64,
    /// Size of one CPU's legacy IPI mailbox.
    pub legacy_ipi_stride: u64,
}

/// Every `(base, size)` window reserved for `cpu_count` CPUs.
pub open spec fn reserved_candidates(
    windows: Seq<(u64, u64)>,
    ipi_base: u64,
    ipi_stride: u64,
    cpu_count: u32,
) -> Seq<(u64, u64)> {
    let w1 = if cpu_count > 1 {
        windows.push((0x1000u64, SECONDARY_BOOT_CODE_SIZE))
    } else {
        windows
    };
    if cpu_count > 0 {
        let sz = if cpu_count * ipi_stride > u64::MAX {
            u64::MAX
        } else {
            (cpu_count * ipi_stride) as u64
        };
        w1.push((ipi_base, sz))
    } else {
        w1
    }
}

/// Pairs sorted by their first component.
pub open spec fn sorted_by_start(p: Seq<(u64, u64)>) -> bool {
    forall|i: int, j: int| 0 <= i < j < p.len() ==> (#[trigger] p[i]).0 <= (#[trigger] p[j]).0
}

/// Sort pairs by their first component, keeping the same elements.
fn sort_by_start(v: &Vec<(u64, u64)>) -> (r: Vec<(u64, u64)>)
    ensures
        r@.len() == v@.len(),
        sorted_by_start(r@),
        forall|x: (u64, u64)| r@.contains(x) <==> v@.contains(x),
{
    let mut out: Vec<(u64, u64)> = Vec::new();
    let mut i: usize = 0;
    while i < v.len()
        invariant
            i <= v@.len(),
            out@.len() == i,
            sorted_by_start(out@),
            forall|x: (u64, u64)| out@.contains(x) <==> v@.take(i as int).contains(x),
        decreases v.len() - i,
    {
        let x = v[i];
        let mut p: usize = 0;
        while p < out.len() && out[p].0 <= x.0
            invariant
                p <= out@.len(),
                forall|k: int| 0 <= k < p ==> (#[trigger] out@[k]).0 <= x.0,
            decreases out.len() - p,
        {
            p = p + 1;
        }
        let ghost old_out = out@;
        out.insert(p, x);
        proof {
            assert(forall|k: int| 0 <= k < p ==> out@[k] == old_out[k]);
            assert(out@[p as int] == x);
            assert(forall|k: int| p < k < out@.len() ==> out@[k] == old_out[k - 1]);
            assert forall|a: int, b: int| 0 <= a < b < out@.len() implies (#[trigger] out@[a]).0
                <= (#[trigger] out@[b]).0 by {
                if b < p {
                } else if b == p {
                } else if a < p {
                    assert(old_out[a].0 <= x.0);
                    if p < old_out.len() {
                        assert(old_out[p as int].0 > x.0);
                        assert(old_out[p as int].0 <= old_out[b - 1].0);
                    }
                } else if a == p {
                    assert(old_out[p as int].0 > x.0);
                    assert(old_out[p as int].0 <= old_out[b - 1].0);
                } else {
                    assert(old_out[a - 1].0 <= old_out[b - 1].0);
                }
            }
            assert(v@.take(i + 1) =~= v@.take(i as int).push(x));
            assert forall|y: (u64, u64)| out@.contains(y) <==> v@.take(i + 1).contains(y) by {
                if out@.contains(y) {
                    let k = choose|k: int| 0 <= k < out@.len() && #[trigger] out@[k] == y;
                    if k < p {
                        assert(old_out.contains(y));
                    } else if k == p {
                        assert(v@.take(i + 1)[i as int] == y);
                    } else {
                        assert(old_out[k - 1] == y);
                        assert(old_out.contains(y));
                    }
                    if old_out.contains(y) {
                        let m = choose|m: int| 0 <= m < v@.take(i as int).len() && #[trigger] v@.take(
                            i as int,
                        )[m] == y;
                        assert(v@.take(i + 1)[m] == y);
                    }
                }
                if v@.take(i + 1).contains(y) {
                    let m = choose|m: int| 0 <= m < v@.take(i + 1).len() && #[trigger] v@.take(i + 1)[m] == y;
                    if m < i {
                        assert(v@.take(i as int)[m] == y);
                        assert(v@.take(i as int).contains(y));
                        assert(old_out.contains(y));
                        let k = choose|k: int| 0 <= k < old_out.len() && #[trigger] old_out[k] == y;
                        if k < p {
                            assert(out@[k] == y);
                        } else {
                            assert(out@[k + 1] == y);
                        }
                    } else {
                        assert(out@[p as int] == y);
                    }
                }
            }
        }
        i = i + 1;
    }
    proof {
        assert(v@.take(i as int) =~= v@);
    }
    out
}

/// Pairs `[start, end)` sorted, non-empty, separated by gaps, and ending
/// at or below `limit`.
pub open spec fn canonical_pairs(p: Seq<(u64, u64)>, limit: int) -> bool {
    &&& forall|k: int| 0 <= k < p.len() ==> (#[trigger] p[k]).0 < p[k].1 && p[k].1 <= limit
    &&& forall|k: int, l: int| 0 <= k < l < p.len() ==> (#[trigger] p[k]).1 < (#[trigger] p[l]).0
}

/// Collect the page-aligned reserved windows of `cands`.
fn reserved_pairs(cands: &Vec<(u64, u64)>) -> (r: Vec<(u64, u64)>)
    ensures
        forall|k: int| 0 <= k < r@.len() ==> (#[trigger] r@[k]).0 < r@[k].1,
        forall|a: int| in_pairs(r@, a) <==> in_windows(cands@, a),
        r@.len() <= cands@.len(),
{
    let mut raw: Vec<(u64, u64)> = Vec::new();
    let mut i: usize = 0;
    while i < cands.len()
        invariant
            i <= cands@.len(),
            raw@.len() <= i,
            forall|k: int| 0 <= k < raw@.len() ==> (#[trigger] raw@[k]).0 < raw@[k].1,
            forall|a: int| in_pairs(raw@, a) <==> in_windows(cands@.take(i as int), a),
        decreases cands.len() - i,
    {
        let (b, sz) = cands[i];
        let ghost before = raw@;
        push_reserved_range(&mut raw, b, sz);
        proof {
            let w = reserved_window(b, sz);
            assert(cands@.take(i + 1) =~= cands@.take(i as int).push((b, sz)));
            assert forall|a: int| in_pairs(raw@, a) <==> in_windows(cands@.take(i + 1), a) by {
                let t = cands@.take(i + 1);
                if in_pairs(raw@, a) {
                    let j = choose|j: int| 0 <= j < raw@.len() && (#[trigger] raw@[j]).0 <= a < raw@[j].1;
                    if j < before.len() {
                        assert(before[j] == raw@[j]);
                        assert(in_pairs(before, a));
                        assert(in_windows(cands@.take(i as int), a));
                        let m = choose|m: int|
                            0 <= m < cands@.take(i as int).len() && reserved_window(
                                (#[trigger] cands@.take(i as int)[m]).0,
                                cands@.take(i as int)[m].1,
                            ).0 <= a < reserved_window(
                                cands@.take(i as int)[m].0,
                                cands@.take(i as int)[m].1,
                            ).1;
                        assert(t[m] == cands@.take(i as int)[m]);
                    } else {
                        assert(t[i as int] == (b, sz));
                    }
                }
                if in_windows(t, a) {
                    let m = choose|m: int|
                        0 <= m < t.len() && reserved_window((#[trigger] t[m]).0, t[m].1).0 <= a
                            < reserved_window(t[m].0, t[m].1).1;
                    if m < i {
                        assert(cands@.take(i as int)[m] == t[m]);
                        assert(in_windows(cands@.take(i as int), a));
                        assert(in_pairs(before, a));
                        let j = choose|j: int|
                            0 <= j < before.len() && (#[trigger] before[j]).0 <= a < before[j].1;
                        assert(raw@[j] == before[j]);
                    } else {
                        assert(t[m] == (b, sz));
                        assert(raw@[before.len() as int] == (w.0 as u64, w.1 as u64));
                    }
                }
            }
        }
        i = i + 1;
    }
    proof {
        assert(cands@.take(i as int) =~= cands@);
    }
    raw
}

/// Merge sorted `[start, end)` pairs into the canonical union of their
/// parts below `limit`.
fn merge_sorted_pairs(srt: &Vec<(u64, u64)>, limit: u64) -> (r: Vec<(u64, u64)>)
    requires
        sorted_by_start(srt@),
        forall|k: int| 0 <= k < srt@.len() ==> (#[trigger] srt@[k]).0 < srt@[k].1,
    ensures
        canonical_pairs(r@, limit as int),
        forall|a: int| in_pairs(r@, a) <==> (a < limit && in_pairs(srt@, a)),
        r@.len() <= srt@.len(),
{
    let mut merged: Vec<(u64, u64)> = Vec::new();
    let mut i: usize = 0;
    proof {
        if srt@.len() == 0 {
            assert(srt@.take(0) =~= srt@);
        }
    }
    while i < srt.len()
        invariant_except_break
            i <= srt@.len(),
            merged@.len() <= i,
            i == srt@.len() ==> srt@.take(i as int) == srt@,
            canonical_pairs(merged@, limit as int),
            forall|a: int| in_pairs(merged@, a) <==> (a < limit && in_pairs(srt@.take(i as int), a)),
            merged@.len() > 0 ==> forall|j: int|
                i <= j < srt@.len() ==> merged@.last().0 <= (#[trigger] srt@[j]).0,
        invariant
            sorted_by_start(srt@),
            forall|k: int| 0 <= k < srt@.len() ==> (#[trigger] srt@[k]).0 < srt@[k].1,
        ensures
            canonical_pairs(merged@, limit as int),
            forall|a: int| in_pairs(merged@, a) <==> (a < limit && in_pairs(srt@, a)),
            merged@.len() <= srt@.len(),
        decreases srt.len() - i,
    {
        let (start, end) = srt[i];
        if start >= limit {
            proof {
                assert forall|a: int| in_pairs(merged@, a) <==> (a < limit && in_pairs(srt@, a)) by {
                    if a < limit && in_pairs(srt@, a) {
                        let j = choose|j: int| 0 <= j < srt@.len() && (#[trigger] srt@[j]).0 <= a < srt@[j].1;
                        if j >= i {
                            assert(srt@[i as int].0 <= srt@[j].0);
                        } else {
                            assert(srt@.take(i as int)[j] == srt@[j]);
                        }
                    }
                    if in_pairs(srt@.take(i as int), a) {
                        let j = choose|j: int|
                            0 <= j < srt@.take(i as int).len() && (#[trigger] srt@.take(i as int)[j]).0 <= a
                                < srt@.take(i as int)[j].1;
                        assert(srt@[j] == srt@.take(i as int)[j]);
                    }
                }
            }
            break;
        }
        let clipped = if end < limit {
            end
        } else {
            limit
        };
        let ghost before = merged@;
        let n = merged.len();
        let mut extend = false;
        if n > 0 {
            let (ls, le) = merged[n - 1];
            if start <= le {
                extend = true;
                let ne = if le >= clipped {
                    le
                } else {
                    clipped
                };
                merged.set(n - 1, (ls, ne));
            }
        }
        if !extend {
            merged.push((start, clipped));
        }
        proof {
            let t = srt@.take(i + 1);
            assert(t =~= srt@.take(i as int).push((start, end)));
            assert forall|a: int| in_pairs(merged@, a) <==> (a < limit && in_pairs(t, a)) by {
                let was = in_pairs(before, a);
                assert(was <==> (a < limit && in_pairs(srt@.take(i as int), a)));
                assert(t[i as int] == (start, end));
                if in_pairs(t, a) {
                    let j = choose|j: int| 0 <= j < t.len() && (#[trigger] t[j]).0 <= a < t[j].1;
                    if j < i {
                        assert(srt@.take(i as int)[j] == t[j]);
                        assert(in_pairs(srt@.take(i as int), a));
                    } else {
                        assert(start <= a < end);
                    }
                }
                assert(in_pairs(t, a) <==> (in_pairs(srt@.take(i as int), a) || (start <= a < end)));
                if in_pairs(srt@.take(i as int), a) {
                    let j = choose|j: int|
                        0 <= j < srt@.take(i as int).len() && (#[trigger] srt@.take(i as int)[j]).0 <= a
                            < srt@.take(i as int)[j].1;
                    assert(t[j] == srt@.take(i as int)[j]);
                }
                assert((a < limit && in_pairs(t, a)) <==> (was || (start <= a < clipped)));
                if was {
                    let j = choose|j: int| 0 <= j < before.len() && (#[trigger] before[j]).0 <= a < before[j].1;
                    if extend && j == n - 1 {
                        assert(merged@[j].0 <= a < merged@[j].1);
                    } else {
                        assert(merged@[j] == before[j]);
                    }
                }
                if start <= a < clipped {
                    if extend {
                        assert(merged@[n - 1].0 <= a < merged@[n - 1].1);
                    } else {
                        assert(merged@[n as int] == (start, clipped));
                    }
                }
                if in_pairs(merged@, a) {
                    let j = choose|j: int| 0 <= j < merged@.len() && (#[trigger] merged@[j]).0 <= a < merged@[j].1;
                    if extend && j == n - 1 {
                        if a < before[j].1 {
                            assert(in_pairs(before, a));
                        } else {
                            assert(start <= a < clipped);
                        }
                    } else if j < n {
                        assert(before[j] == merged@[j]);
                        assert(in_pairs(before, a));
                    } else {
                        assert(start <= a < clipped);
                    }
                }
            }
            assert forall|j: int| i + 1 <= j < srt@.len() implies merged@.last().0 <= (#[trigger] srt@[j]).0 by {
                assert(srt@[i as int].0 <= srt@[j].0);
                if extend {
                    assert(merged@.last().0 == before.last().0);
                }
            }
            if !extend {
                assert forall|k: int, l: int| 0 <= k < l < merged@.len() implies (#[trigger] merged@[k]).1
                    < (#[trigger] merged@[l]).0 by {
                    if l == n {
                        if k < n - 1 {
                            assert(before[k].1 < before[n - 1].0);
                        }
                    }
                }
            }
        }
        i = i + 1;
        proof {
            if i == srt@.len() {
                assert(srt@.take(i as int) =~= srt@);
            }
        }
    }
    merged
}

/// Convert `[start, end)` pairs into `(base, size)` regions.
fn pairs_to_regions(m: &Vec<(u64, u64)>, limit: u64) -> (r: Vec<(u64, u64)>)
    requires
        canonical_pairs(m@, limit as int),
    ensures
        canonical_regions(r@, limit as int),
        r@.len() == m@.len(),
        forall|k: int| 0 <= k < r@.len() ==> (#[trigger] r@[k]).0 == m@[k].0 && r@[k].0 + r@[k].1 == m@[k].1,
        forall|a: int| in_regions(r@, a) <==> in_pairs(m@, a),
{
    let mut out: Vec<(u64, u64)> = Vec::new();
    let mut i: usize = 0;
    while i < m.len()
        invariant
            i <= m@.len(),
            canonical_pairs(m@, limit as int),
            out@.len() == i,
            forall|k: int| 0 <= k < i ==> (#[trigger] out@[k]).0 == m@[k].0 && out@[k].0 + out@[k].1 == m@[k].1,
        decreases m.len() - i,
    {
        let (s, e) = m[i];
        out.push((s, e - s));
        i = i + 1;
    }
    proof {
        assert forall|a: int| in_regions(out@, a) <==> in_pairs(m@, a) by {
            if in_regions(out@, a) {
                let j = choose|j: int| 0 <= j < out@.len() && (#[trigger] out@[j]).0 <= a < out@[j].0 + out@[j].1;
                assert(m@[j].0 <= a < m@[j].1);
            }
            if in_pairs(m@, a) {
                let j = choose|j: int| 0 <= j < m@.len() && (#[trigger] m@[j]).0 <= a < m@[j].1;
                assert(out@[j].0 <= a < out@[j].0 + out@[j].1);
            }
        }
        assert forall|k: int, l: int| 0 <= k < l < out@.len() implies (#[trigger] out@[k]).0 + out@[k].1
            < (#[trigger] out@[l]).0 by {
            assert(m@[k].1 < m@[l].0);
        }
    }
    out
}

/// Build every reserved `(base, size)` candidate for `cpu_count` CPUs.
fn reserved_candidate_list(layout: &LowRamLayout, cpu_count: u32) -> (r: Vec<(u64, u64)>)
    ensures
        r@ == reserved_candidates(
            layout.windows@,
            layout.legacy_ipi_base,
            layout.legacy_ipi_stride,
            cpu_count,
        ),
{
    let mut cands: Vec<(u64, u64)> = Vec::new();
    let mut i: usize = 0;
    while i < layout.windows.len()
        invariant
            i <= layout.windows@.len(),
            cands@ == layout.windows@.take(i as int),
        decreases layout.windows.len() - i,
    {
        cands.push(layout.windows[i]);
        i = i + 1;
        proof {
            assert(cands@ =~= layout.windows@.take(i as int));
        }
    }
    proof {
        assert(layout.windows@.take(i as int) =~= layout.windows@);
    }
    if cpu_count > 1 {
        cands.push((boot_phys_addr(SECONDARY_BOOT_ENTRY), SECONDARY_BOOT_CODE_SIZE));
    }
    if cpu_count > 0 {
        let sz = match (cpu_count as u64).checked_mul(layout.legacy_ipi_stride) {
            Some(v) => v,
            None => u64::MAX,
        };
        cands.push((layout.legacy_ipi_base, sz));
    }
    cands
}

/// The reserved low-RAM regions for `cpu_count` CPUs: the union of the
/// page-aligned device windows clipped to the page-aligned RAM size, as
/// sorted, gap-separated `(base, size)` regions.
pub fn low_ram_reserved_ranges(ram_size: u64, cpu_count: u32, layout: &LowRamLayout) -> (r: Vec<
    (u64, u64),
>)
    ensures
        r@.len() <= layout.windows@.len() + 2,
        canonical_regions(r@, page_down(ram_size as int)),
        forall|a: int|
            in_regions(r@, a) <==> (a < page_down(ram_size as int) && in_windows(
                reserved_candidates(
                    layout.windows@,
                    layout.legacy_ipi_base,
                    layout.legacy_ipi_stride,
                    cpu_count,
                ),
                a,
            )),
{
    proof {
        lemma_page_size_pow2();
    }
    let ram = align_down(ram_size, EFI_PAGE_SIZE);
    let cands = reserved_candidate_list(layout, cpu_count);
    let raw = reserved_pairs(&cands);
    let srt = sort_by_start(&raw);
    proof {
        assert forall|k: int| 0 <= k < srt@.len() implies (#[trigger] srt@[k]).0 < srt@[k].1 by {
            assert(srt@.contains(srt@[k]));
            assert(raw@.contains(srt@[k]));
        }
        assert forall|a: int| in_pairs(srt@, a) <==> in_pairs(raw@, a) by {
            if in_pairs(srt@, a) {
                let j = choose|j: int| 0 <= j < srt@.len() && (#[trigger] srt@[j]).0 <= a < srt@[j].1;
                assert(srt@.contains(srt@[j]));
                assert(raw@.contains(srt@[j]));
                let m = choose|m: int| 0 <= m < raw@.len() && raw@[m] == srt@[j];
                assert(raw@[m].0 <= a < raw@[m].1);
            }
            if in_pairs(raw@, a) {
                let j = choose|j: int| 0 <= j < raw@.len() && (#[trigger] raw@[j]).0 <= a < raw@[j].1;
                assert(raw@.contains(raw@[j]));
                assert(srt@.contains(raw@[j]));
                let m = choose|m: int| 0 <= m < srt@.len() && srt@[m] == raw@[j];
                assert(srt@[m].0 <= a < srt@[m].1);
            }
        }
    }
    let merged = merge_sorted_pairs(&srt, ram);
    pairs_to_regions(&merged, ram)
}

/// The usable low-RAM regions for `cpu_count` CPUs: every page-aligned
/// RAM address not in a reserved window, as sorted, gap-separated
/// `(base, size)` regions.
pub fn low_ram_usable_ranges(ram_size: u64, cpu_count: u32, layout: &LowRamLayout) -> (r: Vec<
    (u64, u64),
>)
    ensures
        canonical_regions(r@, page_down(ram_size as int)),
        forall|a: int|
            in_regions(r@, a) <==> (0 <= a < page_down(ram_size as int) && !in_windows(
                reserved_candidates(
                    layout.windows@,
                    layout.legacy_ipi_base,
                    layout.legacy_ipi_stride,
                    cpu_count,
                ),
                a,
            )),
{
    proof {
        lemma_page_size_pow2();
    }
    let ram = align_down(ram_size, EFI_PAGE_SIZE);
    let ghost cands = reserved_candidates(
        layout.windows@,
        layout.legacy_ipi_base,
        layout.legacy_ipi_stride,
        cpu_count,
    );
    if ram == 0 {
        let out: Vec<(u64, u64)> = Vec::new();
        return out;
    }
    let reserved = low_ram_reserved_ranges(ram, cpu_count, layout);
    proof {
        assert(page_down(ram as int) == ram as int);
    }
    let (out, cursor) = gaps_between(&reserved, ram);
    proof {
        assert forall|a: int| in_regions(out@, a) <==> (0 <= a < ram && !in_windows(cands, a)) by {
            assert(in_regions(reserved@, a) <==> (a < ram && in_windows(cands, a)));
        }
    }
    out
}

/// The gaps between the canonical regions `res` below `limit`.
fn gaps_between(res: &Vec<(u64, u64)>, limit: u64) -> (r: (Vec<(u64, u64)>, u64))
    requires
        canonical_regions(res@, limit as int),
    ensures
        canonical_regions(r.0@, limit as int),
        forall|a: int| in_regions(r.0@, a) <==> (0 <= a < limit && !in_regions(res@, a)),
{
    let mut out: Vec<(u64, u64)> = Vec::new();
    let mut cursor: u64 = 0;
    let mut i: usize = 0;
    while i < res.len()
        invariant
            i <= res@.len(),
            canonical_regions(res@, limit as int),
            canonical_regions(out@, cursor as int),
            cursor <= limit,
            i == 0 ==> cursor == 0,
            i > 0 ==> cursor == res@[i - 1].0 + res@[i - 1].1,
            i > 0 && out@.len() > 0 ==> out@.last().0 + out@.last().1 < cursor,
            forall|a: int| in_regions(out@, a) <==> (0 <= a < cursor && !in_regions(res@.take(i as int), a)),
        decreases res.len() - i,
    {
        let (b, sz) = res[i];
        let ghost before = out@;
        let ghost old_cursor = cursor;
        proof {
            if i > 0 {
                assert(res@[i - 1].0 + res@[i - 1].1 < res@[i as int].0);
            }
        }
        if cursor < b {
            out.push((cursor, b - cursor));
        }
        cursor = b + sz;
        proof {
            let t = res@.take(i + 1);
            assert(t =~= res@.take(i as int).push((b, sz)));
            assert forall|a: int| in_regions(out@, a) <==> (0 <= a < cursor && !in_regions(t, a)) by {
                if in_regions(t, a) {
                    let j = choose|j: int| 0 <= j < t.len() && (#[trigger] t[j]).0 <= a < t[j].0 + t[j].1;
                    if j < i {
                        assert(res@.take(i as int)[j] == t[j]);
                        assert(in_regions(res@.take(i as int), a));
                    } else {
                        assert(t[j] == (b, sz));
                    }
                }
                if in_regions(res@.take(i as int), a) {
                    let j = choose|j: int|
                        0 <= j < res@.take(i as int).len() && (#[trigger] res@.take(i as int)[j]).0 <= a
                            < res@.take(i as int)[j].0 + res@.take(i as int)[j].1;
                    assert(t[j] == res@.take(i as int)[j]);
                    assert(a < old_cursor) by {
                        if j < i - 1 {
                            assert(res@[j].0 + res@[j].1 < res@[i - 1].0);
                        }
                    }
                }
                assert(t[i as int] == (b, sz));
                if in_regions(out@, a) {
                    let j = choose|j: int| 0 <= j < out@.len() && (#[trigger] out@[j]).0 <= a < out@[j].0 + out@[j].1;
                    if j < before.len() {
                        assert(out@[j] == before[j]);
                        assert(in_regions(before, a));
                    }
                }
                if in_regions(before, a) {
                    let j = choose|j: int| 0 <= j < before.len() && (#[trigger] before[j]).0 <= a < before[j].0 + before[j].1;
                    assert(out@[j] == before[j]);
                }
                if old_cursor <= a < b {
                    assert(out@[before.len() as int] == (old_cursor, (b - old_cursor) as u64));
                }
            }
            assert forall|k: int, l: int| 0 <= k < l < out@.len() implies (#[trigger] out@[k]).0
                + out@[k].1 < (#[trigger] out@[l]).0 by {
                if l == before.len() {
                    if k < before.len() - 1 {
                        assert(before[k].0 + before[k].1 < before[before.len() - 1].0);
                    }
                }
            }
        }
        i = i + 1;
    }
    proof {
        assert(res@.take(i as int) =~= res@);
    }
    let ghost before = out@;
    if cursor < limit {
        out.push((cursor, limit - cursor));
    }
    proof {
        assert forall|a: int| in_regions(out@, a) <==> (0 <= a < limit && !in_regions(res@, a)) by {
            if res@.len() > 0 && in_regions(res@, a) {
                let j = choose|j: int| 0 <= j < res@.len() && (#[trigger] res@[j]).0 <= a < res@[j].0 + res@[j].1;
                if j < res@.len() - 1 {
                    assert(res@[j].0 + res@[j].1 < res@[res@.len() - 1].0);
                }
            }
            if in_regions(out@, a) {
                let j = choose|j: int| 0 <= j < out@.len() && (#[trigger] out@[j]).0 <= a < out@[j].0 + out@[j].1;
                if j < before.len() {
                    assert(out@[j] == before[j]);
                    assert(in_regions(before, a));
                }
            }
            if in_regions(before, a) {
                let j = choose|j: int| 0 <= j < before.len() && (#[trigger] before[j]).0 <= a < before[j].0 + before[j].1;
                assert(out@[j] == before[j]);
            }
            if cursor <= a < limit {
                assert(out@[before.len() as int] == (cursor, (limit - cursor) as u64));
            }
        }
        assert forall|k: int, l: int| 0 <= k < l < out@.len() implies (#[trigger] out@[k]).0
            + out@[k].1 < (#[trigger] out@[l]).0 by {
            if l == before.len() {
                if k < before.len() - 1 {
                    assert(before[k].0 + before[k].1 < before[before.len() - 1].0);
                }
            }
        }
    }
    (out, cursor)
}

/// `n` zero bytes.
pub open spec fn zeros(n: nat) -> Seq<u8> {
    Seq::new(n, |i: int| 0u8)
}

/// `d` lists `(base, size, type)` runs that tile `[0, limit)` in order,
/// alternate between usable (`EFI_CONVENTIONAL_MEMORY`) and reserved
/// (`EFI_RESERVED_MEMORY`) runs, and give each address the type its
/// membership in the reserved windows `w` calls for.
pub open spec fn memmap_tiles(d: Seq<(u64, u64, u32)>, limit: int, w: Seq<(u64, u64)>) -> bool {
    &&& (d.len() == 0 <==> limit == 0)
    &&& d.len() > 0 ==> d[0].0 == 0 && d.last().0 + d.last().1 == limit
    &&& forall|k: int| 0 <= k < d.len() - 1 ==> (#[trigger] d[k]).0 + d[k].1 == d[k + 1].0
    &&& forall|k: int| 0 <= k < d.len() - 1 ==> (#[trigger] d[k]).2 != d[k + 1].2
    &&& forall|k: int| 0 <= k < d.len() ==> (#[trigger] d[k]).1 > 0
    &&& forall|k: int|
        0 <= k < d.len() ==> ((#[trigger] d[k]).2 == EFI_RESERVED_MEMORY || d[k].2
            == EFI_CONVENTIONAL_MEMORY)
    &&& forall|k: int, a: int|
        0 <= k < d.len() && (#[trigger] d[k]).0 <= a < d[k].0 + d[k].1 ==> (d[k].2
            == EFI_RESERVED_MEMORY <==> #[trigger] in_windows(w, a))
}

/// The 40-byte EFI memory descriptor of a run: type, physical start and
/// page count.
pub open spec fn desc_bytes(d: (u64, u64, u32)) -> Seq<u8> {
    crate::bytes::le_bytes(d.2 as nat, 4) + zeros(4) + crate::bytes::le_bytes(d.0 as nat, 8) + zeros(8)
        + crate::bytes::le_bytes((d.1 / 4096) as nat, 8) + zeros(8)
}

/// The concatenated descriptors of `d`.
pub open spec fn descs_bytes(d: Seq<(u64, u64, u32)>) -> Seq<u8>
    decreases d.len(),
{
    if d.len() == 0 {
        Seq::empty()
    } else {
        descs_bytes(d.drop_last()) + desc_bytes(d.last())
    }
}

/// The Linux EFI boot memory map header for `n` descriptors.
pub open spec fn memmap_header(n: nat) -> Seq<u8> {
    crate::bytes::le_bytes(EFI_MEMORY_DESC_SIZE as nat, 8) + crate::bytes::le_bytes(
        (n * EFI_MEMORY_DESC_SIZE) as nat,
        8,
    ) + crate::bytes::le_bytes(EFI_MEMORY_DESC_VERSION as nat, 4) + zeros(20)
}

/// Tile `[0, limit)` with the gaps and regions of the canonical
/// regions `res`.
fn tile_descriptors(res: &Vec<(u64, u64)>, limit: u64, w: Ghost<Seq<(u64, u64)>>) -> (r: Vec<
    (u64, u64, u32),
>)
    requires
        canonical_regions(res@, limit as int),
        forall|a: int| 0 <= a < limit ==> (in_regions(res@, a) <==> in_windows(w@, a)),
    ensures
        memmap_tiles(r@, limit as int, w@),
        r@.len() <= 2 * res@.len() + 1,
{
    let mut d: Vec<(u64, u64, u32)> = Vec::new();
    let mut cursor: u64 = 0;
    let mut i: usize = 0;
    while i < res.len()
        invariant
            i <= res@.len(),
            canonical_regions(res@, limit as int),
            forall|a: int| 0 <= a < limit ==> (in_regions(res@, a) <==> in_windows(w@, a)),
            cursor <= limit,
            i == 0 ==> cursor == 0 && d@.len() == 0,
            d@.len() <= 2 * i,
            i > 0 ==> cursor == res@[i - 1].0 + res@[i - 1].1 && d@.len() > 0 && d@.last().2
                == EFI_RESERVED_MEMORY,
            d@.len() > 0 ==> d@[0].0 == 0 && d@.last().0 + d@.last().1 == cursor,
            forall|k: int| 0 <= k < d@.len() - 1 ==> (#[trigger] d@[k]).0 + d@[k].1 == d@[k + 1].0,
            forall|k: int| 0 <= k < d@.len() - 1 ==> (#[trigger] d@[k]).2 != d@[k + 1].2,
            forall|k: int| 0 <= k < d@.len() ==> (#[trigger] d@[k]).1 > 0,
            forall|k: int|
                0 <= k < d@.len() ==> ((#[trigger] d@[k]).2 == EFI_RESERVED_MEMORY || d@[k].2
                    == EFI_CONVENTIONAL_MEMORY),
            forall|k: int, a: int|
                0 <= k < d@.len() && (#[trigger] d@[k]).0 <= a < d@[k].0 + d@[k].1 ==> (d@[k].2
                    == EFI_RESERVED_MEMORY <==> #[trigger] in_windows(w@, a)),
        decreases res.len() - i,
    {
        let (b, sz) = res[i];
        let ghost before = d@;
        proof {
            if i > 0 {
                assert(res@[i - 1].0 + res@[i - 1].1 < res@[i as int].0);
            }
        }
        if cursor < b {
            proof {
                assert forall|a: int| cursor <= a < b implies !in_windows(w@, a) by {
                    if in_regions(res@, a) {
                        let j = choose|j: int| 0 <= j < res@.len() && (#[trigger] res@[j]).0 <= a < res@[j].0 + res@[j].1;
                        if j < i {
                            if j < i - 1 {
                                assert(res@[j].0 + res@[j].1 < res@[i - 1].0);
                            }
                        } else if j > i {
                            assert(res@[i as int].0 + res@[i as int].1 < res@[j].0);
                        }
                    }
                }
            }
            d.push((cursor, b - cursor, EFI_CONVENTIONAL_MEMORY));
        }
        proof {
            assert forall|a: int| b <= a < b + sz implies in_windows(w@, a) by {
                assert(res@[i as int].0 <= a < res@[i as int].0 + res@[i as int].1);
            }
        }
        d.push((b, sz, EFI_RESERVED_MEMORY));
        cursor = b + sz;
        i = i + 1;
    }
    if cursor < limit {
        proof {
            assert forall|a: int| cursor <= a < limit implies !in_windows(w@, a) by {
                if in_regions(res@, a) {
                    let j = choose|j: int| 0 <= j < res@.len() && (#[trigger] res@[j]).0 <= a < res@[j].0 + res@[j].1;
                    if j < res@.len() - 1 {
                        assert(res@[j].0 + res@[j].1 < res@[res@.len() - 1].0);
                    }
                }
            }
        }
        d.push((cursor, limit - cursor, EFI_CONVENTIONAL_MEMORY));
    } else {
        proof {
            if res@.len() > 0 {
                assert(res@[res@.len() - 1].0 + res@[res@.len() - 1].1 <= limit);
            }
        }
    }
    d
}

/// Append the EFI memory descriptor of one run.
fn push_descriptor(out: &mut Vec<u8>, d: (u64, u64, u32))
    ensures
        final(out)@ == old(out)@ + desc_bytes(d),
{
    crate::bytes::push_le_u32(out, d.2);
    push_zeros(out, 4);
    crate::bytes::push_le_u64(out, d.0);
    push_zeros(out, 8);
    crate::bytes::push_le_u64(out, d.1 / EFI_PAGE_SIZE);
    push_zeros(out, 8);
    proof {
        assert(final(out)@ =~= old(out)@ + desc_bytes(d));
    }
}

/// Append `n` zero bytes.
fn push_zeros(out: &mut Vec<u8>, n: usize)
    ensures
        final(out)@ == old(out)@ + zeros(n as nat),
{
    let mut i: usize = 0;
    while i < n
        invariant
            i <= n,
            out@ == old(out)@ + zeros(i as nat),
        decreases n - i,
    {
        out.push(0u8);
        i = i + 1;
        proof {
            assert(out@ =~= old(out)@ + zeros(i as nat));
        }
    }
}

/// Build the Linux EFI boot memory map: a header followed by one
/// descriptor per run, where the runs tile the page-aligned low RAM and
/// alternate between usable and reserved memory.
pub fn build_boot_memmap(ram_size: u64, cpu_count: u32, layout: &LowRamLayout) -> (r: Vec<u8>)
    requires
        layout.windows@.len() < 0x1000_0000,
    ensures
        exists|d: Seq<(u64, u64, u32)>|
            memmap_tiles(
                d,
                page_down(ram_size as int),
                reserved_candidates(
                    layout.windows@,
                    layout.legacy_ipi_base,
                    layout.legacy_ipi_stride,
                    cpu_count,
                ),
            ) && r@ == memmap_header(d.len()) + descs_bytes(d),
{
    proof {
        lemma_page_size_pow2();
    }
    let ghost cands = reserved_candidates(
        layout.windows@,
        layout.legacy_ipi_base,
        layout.legacy_ipi_stride,
        cpu_count,
    );
    let ram = align_down(ram_size, EFI_PAGE_SIZE);
    let reserved = low_ram_reserved_ranges(ram, cpu_count, layout);
    proof {
        assert(page_down(ram as int) == ram as int);
    }
    let d = tile_descriptors(&reserved, ram, Ghost(cands));
    let n = d.len();
    proof {
        assert(n * 40 <= 0x1_0000_0000_0000) by (nonlinear_arith)
            requires
                n <= 0x2000_0010,
        ;
        assert(n * EFI_MEMORY_DESC_SIZE <= 0x1_0000_0000_0000);
    }
    let mut memmap: Vec<u8> = Vec::new();
    crate::bytes::push_le_u64(&mut memmap, EFI_MEMORY_DESC_SIZE as u64);
    crate::bytes::push_le_u64(&mut memmap, (n as u64) * (EFI_MEMORY_DESC_SIZE as u64));
    crate::bytes::push_le_u32(&mut memmap, EFI_MEMORY_DESC_VERSION);
    push_zeros(&mut memmap, 20);
    proof {
        assert(memmap@ =~= memmap_header(n as nat));
    }
    let mut i: usize = 0;
    while i < n
        invariant
            i <= n,
            n == d@.len(),
            memmap@ == memmap_header(n as nat) + descs_bytes(d@.take(i as int)),
        decreases n - i,
    {
        push_descriptor(&mut memmap, d[i]);
        proof {
            assert(d@.take(i + 1).drop_last() =~= d@.take(i as int));
        }
        i = i + 1;
    }
    proof {
        assert(d@.take(i as int) =~= d@);
        assert(memmap_tiles(d@, page_down(ram_size as int), cands));
        assert(memmap@ == memmap_header(d@.len()) + descs_bytes(d@));
    }
    memmap
}

/// The first of `reserved` that overlaps `range`, if any.
pub open spec fn first_overlap(range: GuestRange, reserved: Seq<GuestRange>) -> Option<int> {
    if exists|i: int| 0 <= i < reserved.len() && ranges_overlap(range, #[trigger] reserved[i]) {
        Some(
            choose|i: int|
                0 <= i < reserved.len() && ranges_overlap(range, #[trigger] reserved[i]) && forall|
                    j: int,
                | 0 <= j < i ==> !ranges_overlap(range, #[trigger] reserved[j]),
        )
    } else {
        None
    }
}

/// The downward search for an initrd slot of `len` bytes ending at or
/// below `end`: each candidate that overlaps a reserved range moves the
/// end below that range.
pub open spec fn initrd_search(end: u64, len: u64, ram_size: u64, reserved: Seq<GuestRange>) -> Result<
    GuestRange,
    BootError,
>
    decreases end,
{
    if end < len {
        Err(BootError::InitrdUnderflow)
    } else if end - len < VIRT_RAM_BASE {
        Err(BootError::InitrdNoRoom)
    } else {
        match in_ram_spec((end - len) as u64, len, ram_size, RangeLabel::Initrd) {
            Err(e) => Err(e),
            Ok(range) => match first_overlap(range, reserved) {
                None => Ok(range),
                Some(i) => {
                    let next_end = page_down(reserved[i].start as int);
                    if next_end >= end {
                        Err(BootError::InitrdOverlap(reserved[i]))
                    } else {
                        initrd_search(next_end as u64, len, ram_size, reserved)
                    }
                },
            },
        }
    }
}

/// Find the index of the first reserved range overlapping `range`.
fn find_overlap(range: GuestRange, reserved: &[GuestRange]) -> (r: Option<usize>)
    ensures
        match r {
            Some(i) => first_overlap(range, reserved@) == Some(i as int) && i < reserved@.len(),
            None => first_overlap(range, reserved@) is None,
        },
{
    let mut i: usize = 0;
    while i < reserved.len()
        invariant
            i <= reserved@.len(),
            forall|j: int| 0 <= j < i ==> !ranges_overlap(range, #[trigger] reserved@[j]),
        decreases reserved.len() - i,
    {
        if range.overlaps(reserved[i]) {
            proof {
                let w = choose|k: int|
                    0 <= k < reserved@.len() && ranges_overlap(range, #[trigger] reserved@[k])
                        && forall|j: int| 0 <= j < k ==> !ranges_overlap(range, #[trigger] reserved@[j]);
                assert(ranges_overlap(range, reserved@[i as int]));
                if w < i {
                } else if w > i {
                    assert(!ranges_overlap(range, reserved@[i as int]));
                }
            }
            return Some(i);
        }
        i = i + 1;
    }
    None
}

/// Place an initrd of `len` bytes in RAM below the boot data at
/// `boot_base`, avoiding every `reserved` range: the highest slot of
/// the downward search, page aligned in size.
pub fn plan_initrd(len: u64, ram_size: u64, boot_base: u64, reserved: &[GuestRange]) -> (r: Result<
    GuestRange,
    BootError,
>)
    ensures
        ({
            let l = if len == 0 {
                1u64
            } else {
                len
            };
            if l + 4095 > u64::MAX {
                r == Err::<GuestRange, BootError>(BootError::AlignOverflow)
            } else {
                r == initrd_search(boot_base, page_down(l + 4095) as u64, ram_size, reserved@)
            }
        }),
        r matches Ok(g) ==> g.end <= boot_base && ram_range_check(g.start, (g.end - g.start) as u64, ram_size, RangeLabel::Initrd) is Ok
            && forall|i: int| 0 <= i < reserved@.len() ==> !ranges_overlap(g, #[trigger] reserved@[i]),
{
    proof {
        lemma_page_size_pow2();
    }
    let l = if len == 0 {
        1
    } else {
        len
    };
    let aligned_len = align_up(l, BOOT_DATA_ALIGN)?;
    let mut end = boot_base;
    loop
        invariant
            initrd_search(end, aligned_len, ram_size, reserved@) == initrd_search(
                boot_base,
                aligned_len,
                ram_size,
                reserved@,
            ),
            end <= boot_base,
            l == (if len == 0 {
                1u64
            } else {
                len
            }),
            l + 4095 <= u64::MAX,
            aligned_len as int == page_down(l + 4095),
            is_pow2(BOOT_DATA_ALIGN),
        decreases end,
    {
        let addr = match end.checked_sub(aligned_len) {
            Some(a) => a,
            None => {
                return Err(BootError::InitrdUnderflow);
            },
        };
        if addr < VIRT_RAM_BASE {
            return Err(BootError::InitrdNoRoom);
        }
        let range = GuestRange::in_ram(addr, aligned_len, ram_size, RangeLabel::Initrd)?;
        match find_overlap(range, reserved) {
            None => {
                proof {
                    assert forall|i: int| 0 <= i < reserved@.len() implies !ranges_overlap(range, #[trigger] reserved@[i]) by {
                        if ranges_overlap(range, reserved@[i]) {
                            assert(exists|k: int| 0 <= k < reserved@.len() && ranges_overlap(range, #[trigger] reserved@[k]));
                            lemma_first_overlap_exists(range, reserved@);
                        }
                    }
                }
                return Ok(range);
            },
            Some(i) => {
                let overlap = reserved[i];
                let next_end = align_down(overlap.start, BOOT_DATA_ALIGN);
                if next_end >= end {
                    return Err(BootError::InitrdOverlap(overlap));
                }
                end = next_end;
            },
        }
    }
}

/// When some reserved range overlaps, `first_overlap` finds one.
pub(crate) proof fn lemma_first_overlap_exists(range: GuestRange, reserved: Seq<GuestRange>)
    requires
        exists|k: int| 0 <= k < reserved.len() && ranges_overlap(range, #[trigger] reserved[k]),
    ensures
        first_overlap(range, reserved) is Some,
{
    let k = choose|k: int| 0 <= k < reserved.len() && ranges_overlap(range, #[trigger] reserved[k]);
    lemma_least_overlap(range, reserved, k);
}

proof fn lemma_least_overlap(range: GuestRange, reserved: Seq<GuestRange>, k: int)
    requires
        0 <= k < reserved.len(),
        ranges_overlap(range, reserved[k]),
    ensures
        exists|i: int|
            0 <= i < reserved.len() && ranges_overlap(range, #[trigger] reserved[i]) && forall|j: int|
                0 <= j < i ==> !ranges_overlap(range, #[trigger] reserved[j]),
    decreases k,
{
    if exists|j: int| 0 <= j < k && ranges_overlap(range, #[trigger] reserved[j]) {
        let j = choose|j: int| 0 <= j < k && ranges_overlap(range, #[trigger] reserved[j]);
        lemma_least_overlap(range, reserved, j);
    } else {
        assert(ranges_overlap(range, reserved[k]) && forall|j: int|
            0 <= j < k ==> !ranges_overlap(range, #[trigger] reserved[j]));
    }
}

/// The instructions of the secondary-CPU boot stub.
pub open spec fn secondary_boot_code_spec() -> Seq<u32> {
    seq![
        0x0400_302cu32, 0x0380_100c, 0x0400_0180, 0x1400_002d, 0x0380_81ad, 0x0648_1da0,
        0x1400_002c, 0x0400_118c, 0x02ff_fc0c, 0x1400_002d, 0x0380_11ad, 0x0648_19ac,
        0x1400_002d, 0x0380_81ad, 0x0648_8000, 0x0340_0000, 0x0648_09ac, 0x43ff_f59f,
        0x1400_002d, 0x0648_09ac, 0x1400_002d, 0x0380_31ad, 0x0648_19ac, 0x1400_002c,
        0x0400_1180, 0x1400_002d, 0x0380_81ad, 0x0648_0dac, 0x0015_0181, 0x4c00_0020,
    ]
}

fn secondary_boot_code() -> (r: [u32; 30])
    ensures
        r@ == secondary_boot_code_spec(),
{
    let r: [u32; 30] = [
        0x0400_302c, 0x0380_100c, 0x0400_0180, 0x1400_002d, 0x0380_81ad, 0x0648_1da0,
        0x1400_002c, 0x0400_118c, 0x02ff_fc0c, 0x1400_002d, 0x0380_11ad, 0x0648_19ac,
        0x1400_002d, 0x0380_81ad, 0x0648_8000, 0x0340_0000, 0x0648_09ac, 0x43ff_f59f,
        0x1400_002d, 0x0648_09ac, 0x1400_002d, 0x0380_31ad, 0x0648_19ac, 0x1400_002c,
        0x0400_1180, 0x1400_002d, 0x0380_81ad, 0x0648_0dac, 0x0015_0181, 0x4c00_0020,
    ];
    proof {
        assert(r@ =~= secondary_boot_code_spec());
    }
    r
}

/// The 32-bit stores that install the secondary-CPU boot stub at
/// `SECONDARY_BOOT_ENTRY`, once its range is checked against RAM.
pub fn install_secondary_boot_code(ram_size: u64) -> (r: Result<Vec<(u64, u32)>, BootError>)
    ensures
        match ram_range_check(SECONDARY_BOOT_ENTRY, SECONDARY_BOOT_CODE_SIZE, ram_size, RangeLabel::SecondaryBoot) {
            Err(e) => r == Err::<Vec<(u64, u32)>, BootError>(e),
            Ok(_) => r matches Ok(w) && w@.len() == SECONDARY_BOOT_CODE_LEN && forall|i: int|
                0 <= i < SECONDARY_BOOT_CODE_LEN ==> #[trigger] w@[i] == (
                    (SECONDARY_BOOT_ENTRY + 4 * i) as u64,
                    secondary_boot_code_spec()[i],
                ),
        },
{
    ensure_ram_range(SECONDARY_BOOT_ENTRY, SECONDARY_BOOT_CODE_SIZE, ram_size, RangeLabel::SecondaryBoot)?;
    let code = secondary_boot_code();
    let mut writes: Vec<(u64, u32)> = Vec::new();
    let mut i: usize = 0;
    while i < SECONDARY_BOOT_CODE_LEN
        invariant
            i <= SECONDARY_BOOT_CODE_LEN,
            code@ == secondary_boot_code_spec(),
            writes@.len() == i,
            forall|j: int|
                0 <= j < i ==> #[trigger] writes@[j] == (
                    (SECONDARY_BOOT_ENTRY + 4 * j) as u64,
                    secondary_boot_code_spec()[j],
                ),
        decreases SECONDARY_BOOT_CODE_LEN - i,
    {
        writes.push((SECONDARY_BOOT_ENTRY + (i as u64) * 4, code[i]));
        i = i + 1;
    }
    Ok(writes)
}

/// The ASCII bytes "gzip".
pub open spec fn is_gzip_tag(d: Seq<u8>) -> bool {
    d[24] == 0x67u8 && d[25] == 0x7au8 && d[26] == 0x69u8 && d[27] == 0x70u8 && d[28] == 0u8
}

/// The outcome of unpacking an EFI zboot image: `None` when the data is
/// not a zboot image, otherwise its decompressed gzip payload.
pub open spec fn zboot_spec(d: Seq<u8>) -> Result<Option<Seq<u8>>, BootError> {
    if d.len() < EFI_ZBOOT_HEADER_SIZE {
        Ok(None)
    } else if !(d[0] == 0x4du8 && d[1] == 0x5au8 && d[4] == 0x7au8 && d[5] == 0x69u8 && d[6] == 0x6du8
        && d[7] == 0x67u8 && le_value(d, 56, 4) == LINUX_IMAGE_PE_MAGIC) {
        Ok(None)
    } else {
        let off = le_value(d, 8, 4);
        let size = le_value(d, 12, 4);
        if off + size > usize::MAX {
            Err(BootError::ZbootPayloadOverflow)
        } else if off + size > d.len() {
            Err(BootError::ZbootPayloadOutOfBounds)
        } else if !is_gzip_tag(d) {
            Err(BootError::ZbootUnsupportedCompression)
        } else {
            match crate::gzip::gunzip_prefix(
                d.subrange(off as int, (off + size) as int),
                (EFI_ZBOOT_MAX_DECOMPRESSED_SIZE + 1) as nat,
            ) {
                None => Err(BootError::ZbootDecompress),
                Some(img) => if img.len() > EFI_ZBOOT_MAX_DECOMPRESSED_SIZE {
                    Err(BootError::ZbootTooLarge)
                } else {
                    Ok(Some(img))
                },
            }
        }
    }
}

/// Unpack an EFI zboot kernel image ("MZ" + "zimg" header with a gzip
/// payload); `Ok(None)` when the data is not such an image.
pub fn unpack_efi_zboot_image(data: &[u8]) -> (r: Result<Option<Vec<u8>>, BootError>)
    ensures
        match zboot_spec(data@) {
            Ok(None) => r matches Ok(None),
            Ok(Some(img)) => r matches Ok(Some(v)) && v@ == img,
            Err(e) => r matches Err(e2) && e2 == e,
        },
{
    if data.len() < EFI_ZBOOT_HEADER_SIZE {
        return Ok(None);
    }
    let is_zboot = data[0] == 0x4d && data[1] == 0x5a && data[4] == 0x7a && data[5] == 0x69
        && data[6] == 0x6d && data[7] == 0x67 && read_le_u32(data, 56) == LINUX_IMAGE_PE_MAGIC;
    if !is_zboot {
        return Ok(None);
    }
    let payload_offset = read_le_u32(data, 8) as usize;
    let payload_size = read_le_u32(data, 12) as usize;
    if payload_offset > usize::MAX - payload_size {
        return Err(BootError::ZbootPayloadOverflow);
    }
    let payload_end = payload_offset + payload_size;
    if payload_end > data.len() {
        return Err(BootError::ZbootPayloadOutOfBounds);
    }
    if !(data[24] == 0x67 && data[25] == 0x7a && data[26] == 0x69 && data[27] == 0x70 && data[28] == 0) {
        return Err(BootError::ZbootUnsupportedCompression);
    }
    let payload = slice_copy(data, payload_offset, payload_end);
    match crate::gzip::gunzip_limited(payload.as_slice(), EFI_ZBOOT_MAX_DECOMPRESSED_SIZE + 1) {
        None => Err(BootError::ZbootDecompress),
        Some(image) => {
            if image.len() as u64 > EFI_ZBOOT_MAX_DECOMPRESSED_SIZE {
                return Err(BootError::ZbootTooLarge);
            }
            Ok(Some(image))
        },
    }
}

/// Copy `data[start..end]`.
pub fn slice_copy(data: &[u8], start: usize, end: usize) -> (r: Vec<u8>)
    requires
        start <= end <= data@.len(),
    ensures
        r@ == data@.subrange(start as int, end as int),
{
    let mut out: Vec<u8> = Vec::new();
    let mut i: usize = start;
    while i < end
        invariant
            start <= i <= end,
            end <= data@.len(),
            out@ == data@.subrange(start as int, i as int),
        decreases end - i,
    {
        out.push(data[i]);
        i = i + 1;
        proof {
            assert(out@ =~= data@.subrange(start as int, i as int));
        }
    }
    out
}

} // verus!
