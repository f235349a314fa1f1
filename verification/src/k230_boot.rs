//! Boot planning for the K230 board: where the kernel, the initrd, the
//! device tree and extra loader images go in DDR or in the Linux memory
//! window that the user's device tree declares.
use vstd::prelude::*;
use crate::k230_dtb::FdtMemoryRegion;

verus! {

/// Base of the boot ROM.
pub const K230_BOOTROM_BASE: u64 = 0x9120_0000;
/// Size of the boot ROM.
pub const K230_BOOTROM_SIZE: u64 = 0x0001_0000;
/// Base of DDR.
pub const K230_DDR_BASE: u64 = 0;
/// Where an initrd goes when no kernel was loaded.
pub const K230_DEFAULT_INITRD_ADDR: u64 = 0x0a10_0000;
/// The most the initrd is placed above the kernel's start.
pub const K230_INITRD_MAX_GAP: u64 = 0x2000_0000;
/// Space kept free above the device tree at the top of DDR.
pub const K230_DTB_MARGIN: u64 = 0x1_0000;

/// Why a K230 boot cannot be planned.
#[derive(Debug, Clone, Copy, PartialEq, Eq, Structural)]
pub enum K230BootError {
    InitrdNeedsDtb,
    KernelRequired,
    MemWindowOverflow,
    InitrdStartOverflow,
    InitrdEndOverflow,
    InitrdOutsideWindow,
    DtbTooLargeForWindow,
    DtbNoFitWindow,
    DtbTooLargeForDdr,
    DtbNoFitDdr,
    LoaderNotRaw,
    LoaderEndOverflow,
    LoaderOutsideDdr { start: u64, end: u64, ddr_start: u64, ddr_end: u64 },
}

impl K230BootError {
    /// The text of the description.
    pub open spec fn message_text(&self) -> Seq<char> {
        match self {
            K230BootError::InitrdNeedsDtb => "-initrd requires -dtb for the k230 machine"@,
            K230BootError::KernelRequired => "builtin K230 boot requires -kernel"@,
            K230BootError::MemWindowOverflow => "K230 Linux memory window end overflows u64"@,
            K230BootError::InitrdStartOverflow => "K230 initrd start overflows u64"@,
            K230BootError::InitrdEndOverflow => "K230 initrd range end overflows u64"@,
            K230BootError::InitrdOutsideWindow => "K230 initrd exceeds Linux memory window"@,
            K230BootError::DtbTooLargeForWindow => "K230 DTB blob larger than Linux memory window"@,
            K230BootError::DtbNoFitWindow => "K230 DTB does not fit in Linux memory window"@,
            K230BootError::DtbTooLargeForDdr => "K230 DTB blob larger than DDR"@,
            K230BootError::DtbNoFitDdr => "K230 DTB does not fit in DDR"@,
            K230BootError::LoaderNotRaw => "k230 loader requires force-raw=on"@,
            K230BootError::LoaderEndOverflow => "k230 loader range end overflows u64"@,
            K230BootError::LoaderOutsideDdr { .. } => "k230 loader range is outside DDR"@,
        }
    }

    /// A description of the error.
    pub fn message(&self) -> (r: &'static str)
        ensures
            r@ == self.message_text(),
    {
        match self {
            K230BootError::InitrdNeedsDtb => "-initrd requires -dtb for the k230 machine",
            K230BootError::KernelRequired => "builtin K230 boot requires -kernel",
            K230BootError::MemWindowOverflow => "K230 Linux memory window end overflows u64",
            K230BootError::InitrdStartOverflow => "K230 initrd start overflows u64",
            K230BootError::InitrdEndOverflow => "K230 initrd range end overflows u64",
            K230BootError::InitrdOutsideWindow => "K230 initrd exceeds Linux memory window",
            K230BootError::DtbTooLargeForWindow => "K230 DTB blob larger than Linux memory window",
            K230BootError::DtbNoFitWindow => "K230 DTB does not fit in Linux memory window",
            K230BootError::DtbTooLargeForDdr => "K230 DTB blob larger than DDR",
            K230BootError::DtbNoFitDdr => "K230 DTB does not fit in DDR",
            K230BootError::LoaderNotRaw => "k230 loader requires force-raw=on",
            K230BootError::LoaderEndOverflow => "k230 loader range end overflows u64",
            K230BootError::LoaderOutsideDdr { .. } => "k230 loader range is outside DDR",
        }
    }
}

/// An initrd can only be booted together with a device tree.
pub fn check_boot_inputs(has_initrd: bool, has_dtb: bool) -> (r: Result<(), K230BootError>)
    ensures
        r is Err <==> has_initrd && !has_dtb,
        r is Err ==> r == Err::<(), K230BootError>(K230BootError::InitrdNeedsDtb),
{
    if has_initrd && !has_dtb {
        Err(K230BootError::InitrdNeedsDtb)
    } else {
        Ok(())
    }
}

/// `v` rounded up to a multiple of `align` (a power of two).
pub open spec fn round_up(v: int, align: int) -> int {
    (v + align - 1) - (v + align - 1) % align
}

/// `v` rounded up to 4 KiB.
pub fn align_up_4k(v: u64) -> (r: u64)
    requires
        v + 0xfff <= u64::MAX,
    ensures
        r == round_up(v as int, 0x1000),
{
    let x = v + 0xfff;
    assert(x & !0xfffu64 == x - x % 0x1000) by (bit_vector);
    x & !0xfff
}

/// `v` rounded up to 2 MiB.
pub fn align_up_2m(v: u64) -> (r: u64)
    requires
        v + 0x1f_ffff <= u64::MAX,
    ensures
        r == round_up(v as int, 0x20_0000),
{
    let x = v + 0x1f_ffff;
    assert(x & !0x1f_ffffu64 == x - x % 0x20_0000) by (bit_vector);
    x & !0x1f_ffff
}

/// `v` rounded down to 2 MiB.
pub fn align_down_2m(v: u64) -> (r: u64)
    ensures
        r == v - v % 0x20_0000,
{
    assert(v & !0x1f_ffffu64 == v - v % 0x20_0000) by (bit_vector);
    v & !0x1f_ffff
}

/// The base of the memory Linux may use: the declared window, else DDR.
pub open spec fn mem_base_of(linux_mem: Option<FdtMemoryRegion>) -> u64 {
    match linux_mem {
        Some(m) => m.base,
        None => K230_DDR_BASE,
    }
}

/// Where the kernel goes: the memory base, or above the firmware at the
/// next 2 MiB boundary when that is higher.
pub fn k230_kernel_load_addr(has_firmware: bool, fw_high: u64, linux_mem: Option<FdtMemoryRegion>) -> (r: u64)
    requires
        has_firmware ==> fw_high + 0x1f_ffff <= u64::MAX,
    ensures
        r == (if has_firmware {
            if round_up(fw_high as int, 0x20_0000) >= mem_base_of(linux_mem) {
                round_up(fw_high as int, 0x20_0000)
            } else {
                mem_base_of(linux_mem) as int
            }
        } else {
            mem_base_of(linux_mem) as int
        }),
{
    let mem_base = match linux_mem {
        Some(m) => m.base,
        None => K230_DDR_BASE,
    };
    if has_firmware {
        let a = align_up_2m(fw_high);
        if a >= mem_base {
            a
        } else {
            mem_base
        }
    } else {
        mem_base
    }
}

/// The lowest address the initrd may start at, before rounding, for a
/// kernel spanning `[low, high)` in a window of `mem_size` bytes at
/// `mem_base`; `None` when it overflows.
pub open spec fn initrd_floor(low: u64, high: u64, mem_base: u64, mem_size: u64) -> Option<int> {
    let gap: int = if mem_size / 2 <= K230_INITRD_MAX_GAP { (mem_size / 2) as int } else { K230_INITRD_MAX_GAP as int };
    if low + gap > u64::MAX {
        None
    } else {
        let b = low + gap;
        let b2 = if b >= high { b } else { high as int };
        Some(if b2 >= mem_base { b2 } else { mem_base as int })
    }
}

/// The outcome of placing an initrd of `len` bytes.
pub open spec fn initrd_placement(kernel: Option<(u64, u64)>, linux_mem: Option<FdtMemoryRegion>, ram_size: u64, len: u64) -> Result<(u64, u64), K230BootError> {
    let mem_base = mem_base_of(linux_mem);
    let mem_size = match linux_mem {
        Some(m) => m.size,
        None => ram_size,
    };
    if mem_base + mem_size > u64::MAX {
        Err(K230BootError::MemWindowOverflow)
    } else {
        let start: Option<int> = match kernel {
            Some(k) => match initrd_floor(k.0, k.1, mem_base, mem_size) {
                Some(f) => Some(round_up(f, 0x1000)),
                None => None,
            },
            None => Some(K230_DEFAULT_INITRD_ADDR as int),
        };
        match start {
            None => Err(K230BootError::InitrdStartOverflow),
            Some(s) => if s + len > u64::MAX {
                Err(K230BootError::InitrdEndOverflow)
            } else if s < mem_base || s + len > mem_base + mem_size {
                Err(K230BootError::InitrdOutsideWindow)
            } else {
                Ok((s as u64, (s + len) as u64))
            },
        }
    }
}

/// Place an initrd of `len` bytes above the kernel (`(low, high)` of the
/// loaded kernel) inside the Linux memory window; give `[start, end)`.
pub fn k230_initrd_range(kernel: Option<(u64, u64)>, linux_mem: Option<FdtMemoryRegion>, ram_size: u64, len: u64) -> (r: Result<(u64, u64), K230BootError>)
    requires
        kernel matches Some(k) ==> {
            let mem_size = match linux_mem {
                Some(m) => m.size,
                None => ram_size,
            };
            initrd_floor(k.0, k.1, mem_base_of(linux_mem), mem_size) matches Some(f) ==> f + 0xfff <= u64::MAX
        },
    ensures
        r == initrd_placement(kernel, linux_mem, ram_size, len),
{
    let mem_base = match linux_mem {
        Some(m) => m.base,
        None => K230_DDR_BASE,
    };
    let mem_size = match linux_mem {
        Some(m) => m.size,
        None => ram_size,
    };
    let mem_end = match mem_base.checked_add(mem_size) {
        Some(e) => e,
        None => {
            return Err(K230BootError::MemWindowOverflow);
        },
    };
    let start = match kernel {
        Some(k) => {
            let half = mem_size / 2;
            let gap = if half <= K230_INITRD_MAX_GAP {
                half
            } else {
                K230_INITRD_MAX_GAP
            };
            let base = match k.0.checked_add(gap) {
                Some(b) => b,
                None => {
                    return Err(K230BootError::InitrdStartOverflow);
                },
            };
            let b2 = if base >= k.1 {
                base
            } else {
                k.1
            };
            let b3 = if b2 >= mem_base {
                b2
            } else {
                mem_base
            };
            align_up_4k(b3)
        },
        None => K230_DEFAULT_INITRD_ADDR,
    };
    let end = match start.checked_add(len) {
        Some(e) => e,
        None => {
            return Err(K230BootError::InitrdEndOverflow);
        },
    };
    if start < mem_base || end > mem_end {
        return Err(K230BootError::InitrdOutsideWindow);
    }
    Ok((start, end))
}

/// The outcome of placing a device tree of `len` bytes.
pub open spec fn dtb_placement(len: u64, linux_mem: Option<FdtMemoryRegion>, ram_size: u64) -> Result<u64, K230BootError> {
    match linux_mem {
        Some(m) => if len > m.size {
            Err(K230BootError::DtbTooLargeForWindow)
        } else if m.base + m.size > u64::MAX {
            Err(K230BootError::MemWindowOverflow)
        } else {
            let t = m.base + m.size - len;
            let addr = t - t % 0x20_0000;
            if addr < m.base {
                Err(K230BootError::DtbNoFitWindow)
            } else {
                Ok(addr as u64)
            }
        },
        None => if len > ram_size {
            Err(K230BootError::DtbTooLargeForDdr)
        } else if ram_size < K230_DTB_MARGIN + len {
            Err(K230BootError::DtbNoFitDdr)
        } else {
            let off = ram_size - (K230_DTB_MARGIN + len);
            Ok((K230_DDR_BASE + off - off % 8) as u64)
        },
    }
}

/// Where the device tree goes: the highest 2 MiB-aligned slot of the
/// Linux memory window, else 8-byte aligned just below the top 64 KiB
/// of DDR.
pub fn k230_place_dtb(len: u64, linux_mem: Option<FdtMemoryRegion>, ram_size: u64) -> (r: Result<u64, K230BootError>)
    requires
        linux_mem is None && len <= ram_size ==> len + K230_DTB_MARGIN <= u64::MAX,
    ensures
        r == dtb_placement(len, linux_mem, ram_size),
{
    match linux_mem {
        Some(m) => {
            if len > m.size {
                return Err(K230BootError::DtbTooLargeForWindow);
            }
            let mem_end = match m.base.checked_add(m.size) {
                Some(e) => e,
                None => {
                    return Err(K230BootError::MemWindowOverflow);
                },
            };
            let addr = align_down_2m(mem_end - len);
            if addr < m.base {
                return Err(K230BootError::DtbNoFitWindow);
            }
            Ok(addr)
        },
        None => {
            if len > ram_size {
                return Err(K230BootError::DtbTooLargeForDdr);
            }
            let need = K230_DTB_MARGIN + len;
            if ram_size < need {
                return Err(K230BootError::DtbNoFitDdr);
            }
            let off = ram_size - need;
            assert(off & !7u64 == off - off % 8) by (bit_vector);
            Ok(K230_DDR_BASE + (off & !7))
        },
    }
}

/// Check an extra raw image of `len` bytes at `addr`: it must be marked
/// raw and lie inside DDR.
pub fn k230_check_loader(force_raw: bool, addr: u64, len: u64, ram_size: u64) -> (r: Result<(), K230BootError>)
    ensures
        !force_raw ==> r == Err::<(), K230BootError>(K230BootError::LoaderNotRaw),
        force_raw && addr + len > u64::MAX ==> r == Err::<(), K230BootError>(K230BootError::LoaderEndOverflow),
        force_raw && addr + len <= u64::MAX && addr + len > ram_size ==> r == Err::<(), K230BootError>(
            K230BootError::LoaderOutsideDdr {
                start: addr,
                end: (addr + len) as u64,
                ddr_start: K230_DDR_BASE,
                ddr_end: ram_size,
            },
        ),
        r is Ok <==> force_raw && addr + len <= ram_size,
{
    if !force_raw {
        return Err(K230BootError::LoaderNotRaw);
    }
    let end = match addr.checked_add(len) {
        Some(e) => e,
        None => {
            return Err(K230BootError::LoaderEndOverflow);
        },
    };
    let ddr_end = K230_DDR_BASE + ram_size;
    if addr < K230_DDR_BASE || end > ddr_end {
        return Err(K230BootError::LoaderOutsideDdr { start: addr, end, ddr_start: K230_DDR_BASE, ddr_end });
    }
    Ok(())
}

} // verus!
