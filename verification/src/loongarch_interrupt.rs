//! Interrupt routing on the LoongArch `virt` board: a PCH-PIC input is
//! sent to an EIOINTC vector, which is mapped to a CPU's hardware
//! interrupt line. This module computes the register writes that set
//! up and acknowledge such a route.
use vstd::prelude::*;

verus! {

pub const LOONGARCH_DEVICE_HWI: u8 = 1;
pub const PCH_INT_MASK: u64 = 0x020;
pub const PCH_HTMSI_VEC: u64 = 0x200;
pub const EIO_IPMAP: u64 = 0x0c0;
pub const EIO_ENABLE: u64 = 0x200;
pub const EIO_CORE_ISR: u64 = 0x400;
pub const EIO_COREMAP: u64 = 0x800;

/// The EIOINTC core-map byte that targets `cpu_id`: node in the high
/// nibble, one-hot core in the low nibble.
pub open spec fn coremap_spec(cpu_id: u32) -> u64 {
    ((((cpu_id / 4) * 16) + pow2_core(cpu_id % 4)) % 256) as u64
}

pub open spec fn pow2_core(c: u32) -> int {
    if c == 0 { 1 } else if c == 1 { 2 } else if c == 2 { 4 } else { 8 }
}

/// The EIOINTC core-map byte that targets `cpu_id`.
pub fn coremap_byte(cpu_id: u32) -> (r: u64)
    ensures
        r == coremap_spec(cpu_id),
{
    let node = cpu_id / 4;
    let core = cpu_id % 4;
    let bit: u32 = if core == 0 {
        1
    } else if core == 1 {
        2
    } else if core == 2 {
        4
    } else {
        8
    };
    let v: u64 = (node as u64) * 16 + bit as u64;
    v % 256
}

/// A register write of a route: the EIOINTC (`eio`, for CPU `cpu`) or
/// the PCH-PIC, offset, access size and value.
#[derive(Debug, Clone, Copy, PartialEq, Eq, Structural)]
pub struct RouteWrite {
    pub eio: bool,
    pub cpu: u32,
    pub offset: u64,
    pub size: u32,
    pub value: u64,
}

/// The writes that route PCH-PIC input `pch_irq` through EIOINTC vector
/// `eio_irq` to hardware interrupt `hwi` of CPU `cpu_id`, given the
/// PCH-PIC mask register `pch_mask` and the EIOINTC enable word
/// `eio_enable` of the vector's group as read before: point the input
/// at the vector, unmask it, map the vector's group to the line, map the
/// vector to the CPU, and enable the vector.
pub open spec fn route_writes_spec(pch_irq: u32, eio_irq: u32, cpu_id: u32, hwi: u8, pch_mask: u64, eio_enable: u64) -> Seq<RouteWrite> {
    seq![
        RouteWrite { eio: false, cpu: 0, offset: (PCH_HTMSI_VEC + pch_irq) as u64, size: 1, value: eio_irq as u64 },
        RouteWrite { eio: false, cpu: 0, offset: PCH_INT_MASK, size: 8, value: pch_mask & !(1u64 << pch_irq) },
        RouteWrite { eio: true, cpu: cpu_id, offset: (EIO_IPMAP + eio_irq / 32) as u64, size: 1, value: 1u64 << hwi },
        RouteWrite { eio: true, cpu: cpu_id, offset: (EIO_COREMAP + eio_irq) as u64, size: 1, value: coremap_spec(cpu_id) },
        RouteWrite {
            eio: true,
            cpu: cpu_id,
            offset: (EIO_ENABLE + (eio_irq / 32) * 4) as u64,
            size: 4,
            value: eio_enable | (1u64 << (eio_irq % 32)),
        },
    ]
}

/// The EIOINTC enable word that a route of `eio_irq` reads first.
pub fn route_enable_offset(eio_irq: u32) -> (r: u64)
    ensures
        r == EIO_ENABLE + (eio_irq / 32) * 4,
{
    EIO_ENABLE + ((eio_irq / 32) as u64) * 4
}

/// The writes of [`route_writes_spec`].
pub fn route_pch_irq_to_cpu_hwi(pch_irq: u32, eio_irq: u32, cpu_id: u32, hwi: u8, pch_mask: u64, eio_enable: u64) -> (r: Vec<RouteWrite>)
    requires
        pch_irq < 64,
        hwi < 64,
    ensures
        r@ == route_writes_spec(pch_irq, eio_irq, cpu_id, hwi, pch_mask, eio_enable),
{
    let mut out: Vec<RouteWrite> = Vec::new();
    out.push(RouteWrite { eio: false, cpu: 0, offset: PCH_HTMSI_VEC + pch_irq as u64, size: 1, value: eio_irq as u64 });
    out.push(RouteWrite { eio: false, cpu: 0, offset: PCH_INT_MASK, size: 8, value: pch_mask & !(1u64 << pch_irq) });
    out.push(RouteWrite { eio: true, cpu: cpu_id, offset: EIO_IPMAP + (eio_irq / 32) as u64, size: 1, value: 1u64 << hwi });
    out.push(RouteWrite { eio: true, cpu: cpu_id, offset: EIO_COREMAP + eio_irq as u64, size: 1, value: coremap_byte(cpu_id) });
    out.push(RouteWrite {
        eio: true,
        cpu: cpu_id,
        offset: route_enable_offset(eio_irq),
        size: 4,
        value: eio_enable | (1u64 << (eio_irq % 32)),
    });
    proof {
        assert(out@ =~= route_writes_spec(pch_irq, eio_irq, cpu_id, hwi, pch_mask, eio_enable));
    }
    out
}

/// The write that acknowledges EIOINTC vector `eio_irq` on CPU `cpu_id`.
pub fn ack_eiointc(cpu_id: u32, eio_irq: u32) -> (r: RouteWrite)
    ensures
        r == (RouteWrite {
            eio: true,
            cpu: cpu_id,
            offset: (EIO_CORE_ISR + (eio_irq / 32) * 4) as u64,
            size: 4,
            value: 1u64 << (eio_irq % 32),
        }),
{
    RouteWrite {
        eio: true,
        cpu: cpu_id,
        offset: EIO_CORE_ISR + ((eio_irq / 32) as u64) * 4,
        size: 4,
        value: 1u64 << (eio_irq % 32),
    }
}

} // verus!
