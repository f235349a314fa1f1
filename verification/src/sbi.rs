//! The host-side SBI services of the built-in firmware mode: which call
//! an S-mode `ecall` names, what it answers, and what the host must do
//! for it (program the timer, print or read a console byte, reset).
//!
//! The numbers are those of the RISC-V SBI specification.
use vstd::prelude::*;

verus! {

pub const EID_LEGACY_SET_TIMER: u64 = 0;
pub const EID_LEGACY_PUTCHAR: u64 = 1;
pub const EID_LEGACY_GETCHAR: u64 = 2;
pub const EID_LEGACY_SHUTDOWN: u64 = 8;
pub const EID_BASE: u64 = 0x10;
pub const EID_TIME: u64 = 0x5449_4D45;
pub const EID_IPI: u64 = 0x0073_5049;
pub const EID_RFENCE: u64 = 0x5246_4E43;
pub const EID_SRST: u64 = 0x5352_5354;
pub const EID_DBCN: u64 = 0x4442_434E;

pub const FID_SET_TIMER: u64 = 0;
pub const FID_SYSTEM_RESET: u64 = 0;
pub const FID_WRITE_BYTE: u64 = 2;
pub const FID_GET_SPEC_VERSION: u64 = 0;
pub const FID_GET_IMPL_ID: u64 = 1;
pub const FID_GET_IMPL_VERSION: u64 = 2;
pub const FID_PROBE_EXTENSION: u64 = 3;
pub const FID_GET_MVENDORID: u64 = 4;
pub const FID_GET_MARCHID: u64 = 5;
pub const FID_GET_MIMPID: u64 = 6;

pub const SBI_SUCCESS: i64 = 0;
pub const SBI_ERR_NOT_SUPPORTED: i64 = -2;

/// The S-mode timer interrupt pending bit of `mip`.
pub const STIP: u64 = 0x20;

/// The SBI specification version reported (2.0).
pub const SBI_SPEC_VERSION: i64 = 0x0200_0000;
/// The implementation ID reported.
pub const SBI_IMPL_ID: i64 = 99;
/// The implementation version reported.
pub const SBI_IMPL_VERSION: i64 = 0x0001_0000;

/// What the host does for a call besides answering it.
#[derive(Debug, Clone, Copy, PartialEq, Eq, Structural)]
pub enum SbiAction {
    /// Nothing.
    Idle,
    /// Program hart 0's timer compare value and clear STIP.
    SetTimer(u64),
    /// Write a byte to the console UART.
    PutChar(u8),
    /// Read a byte from the console UART; the error register gets the
    /// byte, or -1 when none is waiting.
    GetChar,
    /// Reset the system with this SBI reset type (0 shutdown, 1 cold
    /// reboot, 2 warm reboot).
    Reset(u32),
}

/// The answer of a call: the `(error, value)` pair and the host action.
#[derive(Debug, Clone, Copy, PartialEq, Eq, Structural)]
pub struct SbiReply {
    pub error: i64,
    pub value: i64,
    pub action: SbiAction,
}

/// The extensions that a probe reports as present.
pub open spec fn supported_eid(eid: u64) -> bool {
    eid == EID_LEGACY_SET_TIMER || eid == EID_LEGACY_PUTCHAR || eid == EID_LEGACY_GETCHAR || eid
        == EID_LEGACY_SHUTDOWN || eid == EID_BASE || eid == EID_TIME || eid == EID_IPI || eid
        == EID_RFENCE || eid == EID_SRST
}

pub open spec fn reply(error: i64, value: i64, action: SbiAction) -> SbiReply {
    SbiReply { error, value, action }
}

/// The answer of a base-extension call.
pub open spec fn base_reply(fid: u64, probe_eid: u64) -> SbiReply {
    if fid == FID_GET_SPEC_VERSION {
        reply(SBI_SUCCESS, SBI_SPEC_VERSION, SbiAction::Idle)
    } else if fid == FID_GET_IMPL_ID {
        reply(SBI_SUCCESS, SBI_IMPL_ID, SbiAction::Idle)
    } else if fid == FID_GET_IMPL_VERSION {
        reply(SBI_SUCCESS, SBI_IMPL_VERSION, SbiAction::Idle)
    } else if fid == FID_PROBE_EXTENSION {
        reply(SBI_SUCCESS, if supported_eid(probe_eid) { 1 } else { 0 }, SbiAction::Idle)
    } else if fid == FID_GET_MVENDORID || fid == FID_GET_MARCHID || fid == FID_GET_MIMPID {
        reply(SBI_SUCCESS, 0, SbiAction::Idle)
    } else {
        reply(SBI_ERR_NOT_SUPPORTED, 0, SbiAction::Idle)
    }
}

/// The answer of call `(eid, fid)` with arguments `args` (a0..a5).
pub open spec fn sbi_reply(eid: u64, fid: u64, args: Seq<u64>) -> SbiReply {
    if eid == EID_LEGACY_SET_TIMER {
        reply(0, 0, SbiAction::SetTimer(args[0]))
    } else if eid == EID_LEGACY_PUTCHAR {
        reply(0, 0, SbiAction::PutChar((args[0] % 256) as u8))
    } else if eid == EID_LEGACY_GETCHAR {
        reply(0, 0, SbiAction::GetChar)
    } else if eid == EID_LEGACY_SHUTDOWN {
        reply(SBI_SUCCESS, 0, SbiAction::Reset(0))
    } else if eid == EID_BASE {
        base_reply(fid, args[0])
    } else if eid == EID_TIME {
        if fid == FID_SET_TIMER {
            reply(SBI_SUCCESS, 0, SbiAction::SetTimer(args[0]))
        } else {
            reply(SBI_ERR_NOT_SUPPORTED, 0, SbiAction::Idle)
        }
    } else if eid == EID_IPI || eid == EID_RFENCE {
        reply(SBI_SUCCESS, 0, SbiAction::Idle)
    } else if eid == EID_SRST {
        if fid == FID_SYSTEM_RESET {
            reply(SBI_SUCCESS, 0, SbiAction::Reset((args[0] % 0x1_0000_0000) as u32))
        } else {
            reply(SBI_ERR_NOT_SUPPORTED, 0, SbiAction::Idle)
        }
    } else if eid == EID_DBCN {
        if fid == FID_WRITE_BYTE {
            reply(SBI_SUCCESS, 0, SbiAction::PutChar((args[0] % 256) as u8))
        } else {
            reply(SBI_ERR_NOT_SUPPORTED, 0, SbiAction::Idle)
        }
    } else {
        reply(SBI_ERR_NOT_SUPPORTED, 0, SbiAction::Idle)
    }
}

/// Whether a probe reports extension `eid` as present.
pub fn is_supported_eid(eid: u64) -> (r: bool)
    ensures
        r == supported_eid(eid),
{
    eid == EID_LEGACY_SET_TIMER || eid == EID_LEGACY_PUTCHAR || eid == EID_LEGACY_GETCHAR || eid
        == EID_LEGACY_SHUTDOWN || eid == EID_BASE || eid == EID_TIME || eid == EID_IPI || eid
        == EID_RFENCE || eid == EID_SRST
}

/// Answer a base-extension call.
pub fn dispatch_base(fid: u64, probe_eid: u64) -> (r: SbiReply)
    ensures
        r == base_reply(fid, probe_eid),
{
    if fid == FID_GET_SPEC_VERSION {
        SbiReply { error: SBI_SUCCESS, value: SBI_SPEC_VERSION, action: SbiAction::Idle }
    } else if fid == FID_GET_IMPL_ID {
        SbiReply { error: SBI_SUCCESS, value: SBI_IMPL_ID, action: SbiAction::Idle }
    } else if fid == FID_GET_IMPL_VERSION {
        SbiReply { error: SBI_SUCCESS, value: SBI_IMPL_VERSION, action: SbiAction::Idle }
    } else if fid == FID_PROBE_EXTENSION {
        let present: i64 = if is_supported_eid(probe_eid) {
            1
        } else {
            0
        };
        SbiReply { error: SBI_SUCCESS, value: present, action: SbiAction::Idle }
    } else if fid == FID_GET_MVENDORID || fid == FID_GET_MARCHID || fid == FID_GET_MIMPID {
        SbiReply { error: SBI_SUCCESS, value: 0, action: SbiAction::Idle }
    } else {
        SbiReply { error: SBI_ERR_NOT_SUPPORTED, value: 0, action: SbiAction::Idle }
    }
}

/// Answer a debug-console call; only `write_byte` is provided.
pub fn dispatch_dbcn(fid: u64, args: [u64; 6]) -> (r: SbiReply)
    ensures
        r == sbi_reply(EID_DBCN, fid, args@),
{
    if fid == FID_WRITE_BYTE {
        SbiReply { error: SBI_SUCCESS, value: 0, action: SbiAction::PutChar((args[0] % 256) as u8) }
    } else {
        SbiReply { error: SBI_ERR_NOT_SUPPORTED, value: 0, action: SbiAction::Idle }
    }
}

/// Answer call `(eid, fid)` with arguments `args`, and say what the host
/// must do for it.
pub fn dispatch(eid: u64, fid: u64, args: [u64; 6]) -> (r: SbiReply)
    ensures
        r == sbi_reply(eid, fid, args@),
{
    if eid == EID_LEGACY_SET_TIMER {
        SbiReply { error: 0, value: 0, action: SbiAction::SetTimer(args[0]) }
    } else if eid == EID_LEGACY_PUTCHAR {
        SbiReply { error: 0, value: 0, action: SbiAction::PutChar((args[0] % 256) as u8) }
    } else if eid == EID_LEGACY_GETCHAR {
        SbiReply { error: 0, value: 0, action: SbiAction::GetChar }
    } else if eid == EID_LEGACY_SHUTDOWN {
        SbiReply { error: SBI_SUCCESS, value: 0, action: SbiAction::Reset(0) }
    } else if eid == EID_BASE {
        dispatch_base(fid, args[0])
    } else if eid == EID_TIME {
        if fid == FID_SET_TIMER {
            SbiReply { error: SBI_SUCCESS, value: 0, action: SbiAction::SetTimer(args[0]) }
        } else {
            SbiReply { error: SBI_ERR_NOT_SUPPORTED, value: 0, action: SbiAction::Idle }
        }
    } else if eid == EID_IPI || eid == EID_RFENCE {
        SbiReply { error: SBI_SUCCESS, value: 0, action: SbiAction::Idle }
    } else if eid == EID_SRST {
        if fid == FID_SYSTEM_RESET {
            SbiReply {
                error: SBI_SUCCESS,
                value: 0,
                action: SbiAction::Reset((args[0] % 0x1_0000_0000) as u32),
            }
        } else {
            SbiReply { error: SBI_ERR_NOT_SUPPORTED, value: 0, action: SbiAction::Idle }
        }
    } else if eid == EID_DBCN {
        dispatch_dbcn(fid, args)
    } else {
        SbiReply { error: SBI_ERR_NOT_SUPPORTED, value: 0, action: SbiAction::Idle }
    }
}

/// The error register of a legacy `getchar`: the byte read, or -1 when
/// the console had none.
pub fn getchar_result(byte: Option<u8>) -> (r: i64)
    ensures
        r == match byte {
            Some(b) => b as int,
            None => -1int,
        },
{
    match byte {
        Some(b) => b as i64,
        None => -1,
    }
}

/// `mip` with the S-mode timer interrupt pending bit cleared.
pub fn clear_stip(mip: u64) -> (r: u64)
    ensures
        r == mip & !STIP,
        r & STIP == 0,
        forall|b: u64| b < 64 && b != 5 ==> #[trigger] (r >> b) & 1 == (mip >> b) & 1,
{
    let r = mip & !STIP;
    assert(r & STIP == 0) by (bit_vector)
        requires
            r == mip & !0x20u64,
    ;
    assert(forall|b: u64| b < 64 && b != 5 ==> #[trigger] (r >> b) & 1 == (mip >> b) & 1) by (bit_vector)
        requires
            r == mip & !0x20u64,
    ;
    r
}

/// The registers after an `ecall` is answered: `a0` gets the error,
/// `a1` the value, and the program counter moves past the `ecall`.
pub fn complete_call(reply: SbiReply, pc: u64) -> (r: (u64, u64, u64))
    ensures
        r.0 as int == (if reply.error < 0 { reply.error + 0x1_0000_0000_0000_0000 } else { reply.error as int }),
        r.1 as int == (if reply.value < 0 { reply.value + 0x1_0000_0000_0000_0000 } else { reply.value as int }),
        r.2 == pc.wrapping_add(4),
{
    let a0: u64 = if reply.error < 0 {
        u64::MAX - (-(reply.error + 1)) as u64
    } else {
        reply.error as u64
    };
    let a1: u64 = if reply.value < 0 {
        u64::MAX - (-(reply.value + 1)) as u64
    } else {
        reply.value as u64
    };
    (a0, a1, pc.wrapping_add(4))
}

} // verus!
