//! LoongArch IOCSR address decoding and interrupt routing helpers.
use vstd::prelude::*;

verus! {

pub const IPI_LOCAL_BASE: u32 = 0x1000;
pub const IPI_LOCAL_END: u32 = 0x1040;
pub const IPI_SEND: u32 = 0x1040;
pub const MAIL_SEND: u32 = 0x1048;
pub const ANY_SEND: u32 = 0x1158;
pub const EIO_NODEMAP_BASE: u32 = 0x14a0;
pub const EIO_NODEMAP_END: u32 = 0x14c0;
pub const EIO_IPMAP_BASE: u32 = 0x14c0;
pub const EIO_IPMAP_END: u32 = 0x14c8;
pub const EIO_ENABLE_BASE: u32 = 0x1600;
pub const EIO_ENABLE_END: u32 = 0x1620;
pub const EIO_BOUNCE_BASE: u32 = 0x1680;
pub const EIO_BOUNCE_END: u32 = 0x16a0;
pub const EIO_ISR_BASE: u32 = 0x1800;
pub const EIO_ISR_END: u32 = 0x1820;
pub const EIO_ROUTE_BASE: u32 = 0x1c00;
pub const EIO_ROUTE_END: u32 = 0x1d00;
pub const EIOINTC_IOCSR_BASE: u32 = 0x1400;
pub const EIOINTC_NODEMAP_BASE: u32 = 0x00a0;
pub const EIOINTC_CORE_ISR_BASE: u32 = 0x0400;
pub const EIOINTC_COREMAP_BASE: u32 = 0x0800;

/// Whether an IOCSR address belongs to the IPI block: the per-CPU
/// local registers or one of the IPI / mail / any send registers.
pub fn is_ipi_addr(addr: u32) -> (r: bool)
    ensures
        r == ((IPI_LOCAL_BASE <= addr < IPI_LOCAL_END) || (IPI_SEND <= addr < IPI_SEND + 8) || (
        MAIL_SEND <= addr < MAIL_SEND + 8) || (ANY_SEND <= addr < ANY_SEND + 8)),
{
    (IPI_LOCAL_BASE <= addr && addr < IPI_LOCAL_END) || (IPI_SEND <= addr && addr < IPI_SEND + 8)
        || (MAIL_SEND <= addr && addr < MAIL_SEND + 8) || (ANY_SEND <= addr && addr < ANY_SEND + 8)
}

/// The EIOINTC register offset an IOCSR address maps to, if any.
pub open spec fn eiointc_offset_spec(addr: u32) -> Option<u64> {
    if EIO_NODEMAP_BASE <= addr < EIO_NODEMAP_END {
        Some((EIOINTC_NODEMAP_BASE + (addr - EIO_NODEMAP_BASE)) as u64)
    } else if (EIO_IPMAP_BASE <= addr < EIO_IPMAP_END) || (EIO_ENABLE_BASE <= addr
        < EIO_ENABLE_END) || (EIO_BOUNCE_BASE <= addr < EIO_BOUNCE_END) {
        Some((addr - EIOINTC_IOCSR_BASE) as u64)
    } else if EIO_ISR_BASE <= addr < EIO_ISR_END {
        Some((EIOINTC_CORE_ISR_BASE + (addr - EIO_ISR_BASE)) as u64)
    } else if EIO_ROUTE_BASE <= addr < EIO_ROUTE_END {
        Some((EIOINTC_COREMAP_BASE + (addr - EIO_ROUTE_BASE)) as u64)
    } else {
        None
    }
}

/// Translate an IOCSR address into an EIOINTC register offset.
pub fn eiointc_offset(addr: u32) -> (r: Option<u64>)
    ensures
        r == eiointc_offset_spec(addr),
{
    if EIO_NODEMAP_BASE <= addr && addr < EIO_NODEMAP_END {
        Some((EIOINTC_NODEMAP_BASE + (addr - EIO_NODEMAP_BASE)) as u64)
    } else if (EIO_IPMAP_BASE <= addr && addr < EIO_IPMAP_END) || (EIO_ENABLE_BASE <= addr && addr
        < EIO_ENABLE_END) || (EIO_BOUNCE_BASE <= addr && addr < EIO_BOUNCE_END) {
        Some((addr - EIOINTC_IOCSR_BASE) as u64)
    } else if EIO_ISR_BASE <= addr && addr < EIO_ISR_END {
        Some((EIOINTC_CORE_ISR_BASE + (addr - EIO_ISR_BASE)) as u64)
    } else if EIO_ROUTE_BASE <= addr && addr < EIO_ROUTE_END {
        Some((EIOINTC_COREMAP_BASE + (addr - EIO_ROUTE_BASE)) as u64)
    } else {
        None
    }
}

/// The EIOINTC core-map byte routing an interrupt to `cpu_id`: the node
/// number in the high nibble and a one-hot core bit in the low nibble
/// (truncated to 8 bits).
pub fn coremap_byte(cpu_id: u32) -> (r: u64)
    ensures
        r == ((cpu_id / 4) % 16) * 16 + pow2_small((cpu_id % 4) as nat),
{
    let node = cpu_id / 4;
    let core = cpu_id % 4;
    let v = ((node << 4) | (1u32 << core)) as u8;
    proof {
        assert((((node << 4u32) | (1u32 << core)) as u8) as int == (node % 16) * 16 + (1u32 << core))
            by (bit_vector)
            requires
                core < 4,
        ;
        assert((1u32 << core) as int == pow2_small(core as nat)) by {
            assert(1u32 << 0u32 == 1 && 1u32 << 1u32 == 2 && 1u32 << 2u32 == 4 && 1u32 << 3u32 == 8)
                by (bit_vector);
            if core == 0 {
            } else if core == 1 {
            } else if core == 2 {
            } else {
            }
        }
    }
    v as u64
}

/// `2^n` for `n < 4`.
pub open spec fn pow2_small(n: nat) -> int {
    if n == 0 {
        1
    } else if n == 1 {
        2
    } else if n == 2 {
        4
    } else {
        8
    }
}

} // verus!
