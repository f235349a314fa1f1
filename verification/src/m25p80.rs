//! The M25P80 family of SPI NOR flash: a command state machine that
//! reads, programs and erases a [`FlashMedia`], with the status and
//! configuration registers and the quirks of each manufacturer.
//!
//! The command machine is given as spec functions over a plain register
//! file ([`M25p80Regs`]), each with an executable twin that computes the
//! same value. A transferred byte yields the next registers, the byte the
//! device answers and one flash operation ([`FlashOp`]), which the device
//! then carries out on its flash.
use vstd::prelude::*;
use crate::spi::{SpiCsPolarity, SpiDevState, SpiSlave};
use crate::storage::{BlockBackend, FlashMedia, erased, multiple_of, programmed};

verus! {

pub const CMD_NOP: u8 = 0x00;
pub const CMD_PAGE_PROGRAM: u8 = 0x02;
pub const CMD_WRITE_STATUS: u8 = 0x01;
pub const CMD_READ: u8 = 0x03;
pub const CMD_WRITE_DISABLE: u8 = 0x04;
pub const CMD_READ_STATUS: u8 = 0x05;
pub const CMD_WRITE_ENABLE: u8 = 0x06;
pub const CMD_FAST_READ: u8 = 0x0b;
pub const CMD_FAST_READ4: u8 = 0x0c;
pub const CMD_PAGE_PROGRAM4: u8 = 0x12;
pub const CMD_READ4: u8 = 0x13;
pub const CMD_READ_CONFIG: u8 = 0x15;
pub const CMD_BANK_REGISTER_READ: u8 = 0x16;
pub const CMD_BANK_REGISTER_WRITE: u8 = 0x17;
pub const CMD_WRITE_STATUS2: u8 = 0x31;
pub const CMD_READ_CONTROL_OR_ENABLE_QPI: u8 = 0x35;
pub const CMD_DUAL_OUTPUT_READ: u8 = 0x3b;
pub const CMD_DUAL_OUTPUT_READ4: u8 = 0x3c;
pub const CMD_DUAL_IO_READ: u8 = 0xbb;
pub const CMD_DUAL_IO_READ4: u8 = 0xbc;
pub const CMD_QUAD_PAGE_PROGRAM: u8 = 0x32;
pub const CMD_QUAD_PAGE_PROGRAM4: u8 = 0x34;
pub const CMD_PAGE_PROGRAM4_ALIAS: u8 = 0x3e;
pub const CMD_READ_FLAG_STATUS: u8 = 0x70;
pub const CMD_WRITE_ENHANCED_VOLATILE_CONFIG: u8 = 0x61;
pub const CMD_READ_ENHANCED_VOLATILE_CONFIG: u8 = 0x65;
pub const CMD_QUAD_OUTPUT_READ: u8 = 0x6b;
pub const CMD_QUAD_OUTPUT_READ4: u8 = 0x6c;
pub const CMD_QUAD_IO_READ: u8 = 0xeb;
pub const CMD_QUAD_IO_READ4: u8 = 0xec;
pub const CMD_WRITE_VOLATILE_CONFIG: u8 = 0x81;
pub const CMD_READ_VOLATILE_CONFIG: u8 = 0x85;
pub const CMD_READ_ID_90: u8 = 0x90;
pub const CMD_JEDEC_ID: u8 = 0x9f;
pub const CMD_DUAL_PAGE_PROGRAM: u8 = 0xa2;
pub const CMD_READ_ID_AB: u8 = 0xab;
pub const CMD_AAI_WORD_PROGRAM: u8 = 0xad;
pub const CMD_WRITE_NONVOLATILE_CONFIG: u8 = 0xb1;
pub const CMD_BULK_ERASE_60: u8 = 0x60;
pub const CMD_BULK_ERASE_C7: u8 = 0xc7;
pub const CMD_DIE_ERASE: u8 = 0xc4;
pub const CMD_RESET_ENABLE: u8 = 0x66;
pub const CMD_RESET_MEMORY: u8 = 0x99;
pub const CMD_ENTER_4BYTE_ADDR: u8 = 0xb7;
pub const CMD_READ_NONVOLATILE_CONFIG: u8 = 0xb5;
pub const CMD_EXTEND_ADDR_WRITE: u8 = 0xc5;
pub const CMD_EXTEND_ADDR_READ: u8 = 0xc8;
pub const CMD_ERASE_4K: u8 = 0x20;
pub const CMD_ERASE4_4K: u8 = 0x21;
pub const CMD_ERASE_32K: u8 = 0x52;
pub const CMD_ERASE4_32K: u8 = 0x5c;
pub const CMD_ERASE_SECTOR: u8 = 0xd8;
pub const CMD_ERASE4_SECTOR: u8 = 0xdc;
pub const CMD_EXIT_4BYTE_ADDR: u8 = 0xe9;
pub const CMD_RESET_QIO: u8 = 0xf5;

pub const STATUS_WRITE_ENABLE: u8 = 0x02;
pub const STATUS_AAI_ENABLE: u8 = 0x40;
pub const STATUS_QUAD_ENABLE: u8 = 0x40;
pub const STATUS_TOP_BOTTOM: u8 = 0x20;
pub const STATUS_BP3: u8 = 0x40;
pub const STATUS_WRITABLE_BITS: u8 = 0x9c;
pub const STATUS2_QUAD_ENABLE: u8 = 0x02;
pub const CONFIG_4BYTE_ADDR: u8 = 0x20;
pub const FLAG_STATUS_READY: u8 = 0x80;
pub const FLAG_STATUS_4BYTE_ADDR: u8 = 0x01;
pub const ERASE_4K_SIZE: u32 = 0x1000;
pub const ERASE_32K_SIZE: u32 = 0x8000;
pub const ERASE_SECTOR_SIZE: u64 = 0x1_0000;
pub const MAX_3BYTE_SIZE: u64 = 0x100_0000;
pub const JEDEC_NUMONYX: u8 = 0x20;
pub const JEDEC_SPANSION: u8 = 0x01;
pub const JEDEC_MACRONIX: u8 = 0xc2;
pub const JEDEC_SST: u8 = 0xbf;
pub const JEDEC_ISSI: u8 = 0x9d;
pub const JEDEC_WINBOND: u8 = 0xef;
pub const DEFAULT_NONVOLATILE_CONFIG: u16 = 0x8fff;
pub const NVCFG_XIP_MODE_DISABLED: u16 = 0x0e00;
pub const NVCFG_XIP_MODE_MASK: u16 = 0x0e00;
pub const NVCFG_DUAL_IO_MASK: u16 = 0x0004;
pub const NVCFG_QUAD_IO_MASK: u16 = 0x0008;
pub const NVCFG_4BYTE_ADDR_MASK: u16 = 0x0001;
pub const NVCFG_LOWER_SEGMENT_MASK: u16 = 0x0002;
pub const SPANSION_DEFAULT_CR2V: u8 = 0x08;
pub const VCFG_DUMMY: u8 = 0x01;
pub const VCFG_WRAP_SEQUENTIAL: u8 = 0x02;
pub const VCFG_XIP_MODE_DISABLED: u8 = 0x08;
pub const EVCFG_OUT_DRIVER_STRENGTH_DEF: u8 = 0x07;
pub const EVCFG_VPP_ACCELERATOR: u8 = 0x08;
pub const EVCFG_RESET_HOLD_ENABLED: u8 = 0x10;
pub const EVCFG_DUAL_IO_DISABLED: u8 = 0x40;
pub const EVCFG_QUAD_IO_DISABLED: u8 = 0x80;

/// What the address collected by a command is used for.
#[derive(Debug, Clone, Copy, PartialEq, Eq, Structural)]
pub enum AddressAction {
    Read,
    FastRead { dummy: u8 },
    PageProgram,
    AaiProgram,
    ReadId,
    Erase { len: u32 },
    DieErase,
}

/// A command waiting for its address: what it does and how many
/// address bytes it takes.
#[derive(Debug, Clone, Copy, PartialEq, Eq, Structural)]
pub struct AddressCommand {
    pub action: AddressAction,
    pub bytes: u8,
}

/// Where the device is in a command.
#[derive(Debug, Clone, Copy, PartialEq, Eq, Structural)]
pub enum TransferState {
    Idle,
    IgnoreUntilCs,
    ReadStatus,
    ReadConfig,
    ReadControl,
    ReadFlagStatus,
    ReadExtendedAddress,
    CollectStatus { b0: u8, b1: u8, len: u8, needed: u8, variable: bool },
    CollectStatus2,
    ReadJedec { index: u8 },
    /// Reading the two identification bytes alternately; `odd` says the
    /// second is next.
    ReadId { odd: bool, b0: u8, b1: u8 },
    ReadNonvolatileConfig { index: u8 },
    ReadVolatileConfig,
    CollectVolatileConfig,
    ReadEnhancedVolatileConfig,
    CollectEnhancedVolatileConfig,
    CollectNonvolatileConfig { b0: u8, len: u8 },
    CollectExtendedAddress,
    /// Collecting an address: the bytes so far (`len` of them).
    CollectAddress { command: AddressCommand, b0: u8, b1: u8, b2: u8, len: u8 },
    ReadDummy { addr: u32, remaining: u8 },
    ReadData { addr: u32 },
    PageProgram { addr: u32, aai: bool },
}

/// The register file of the device.
#[derive(Debug, Clone, Copy, PartialEq, Eq, Structural)]
pub struct M25p80Regs {
    pub selected: bool,
    pub write_enable: bool,
    pub status_register: u8,
    pub reset_enable: bool,
    pub four_byte_address_mode: bool,
    pub extended_address: u8,
    pub quad_enable: bool,
    pub aai_enable: bool,
    pub aai_address: u32,
    pub volatile_config: u8,
    pub enhanced_volatile_config: u8,
    pub nonvolatile_config: u16,
    pub spansion_cr2v: u8,
    pub state: TransferState,
}

/// A flash operation started by a command.
#[derive(Debug, Clone, Copy, PartialEq, Eq, Structural)]
pub enum FlashOp {
    Nothing,
    /// Erase the whole flash.
    EraseAll,
    /// Erase `len` bytes from the erase block holding `addr`.
    EraseRegion { addr: u32, len: u32 },
    /// Erase the die holding `addr`.
    EraseDie { addr: u32 },
    /// Program `value` at `addr`.
    Program { addr: u32, value: u8 },
}

/// What a transferred byte is answered with: a value, or the flash byte
/// at an address.
#[derive(Debug, Clone, Copy, PartialEq, Eq, Structural)]
pub enum TransferOut {
    Value(u8),
    Flash(u32),
}

/// The registers with the command state `st`.
pub open spec fn set_state_spec(r: M25p80Regs, st: TransferState) -> M25p80Regs {
    M25p80Regs { state: st, ..r }
}

/// The registers with the command state `st`.
pub fn set_state(r: M25p80Regs, st: TransferState) -> (out: M25p80Regs)
    ensures
        out == set_state_spec(r, st),
{
    M25p80Regs { state: st, ..r }
}

/// The status register as read by a device of manufacturer `j0`.
pub open spec fn status_byte_spec(r: M25p80Regs, j0: u8) -> u8 {
    r.status_register | (if r.write_enable { STATUS_WRITE_ENABLE } else { 0u8 }) | (if (j0 == JEDEC_MACRONIX
        || j0 == JEDEC_ISSI) && r.quad_enable {
        STATUS_QUAD_ENABLE
    } else {
        0u8
    }) | (if j0 == JEDEC_SST && r.aai_enable { STATUS_AAI_ENABLE } else { 0u8 })
}

/// The status register as read by a device of manufacturer `j0`.
pub fn status_byte(r: M25p80Regs, j0: u8) -> (out: u8)
    ensures
        out == status_byte_spec(r, j0),
{
    r.status_register | (if r.write_enable { STATUS_WRITE_ENABLE } else { 0u8 }) | (if (j0 == JEDEC_MACRONIX
        || j0 == JEDEC_ISSI) && r.quad_enable {
        STATUS_QUAD_ENABLE
    } else {
        0u8
    }) | (if j0 == JEDEC_SST && r.aai_enable { STATUS_AAI_ENABLE } else { 0u8 })
}

/// The flag status register.
pub open spec fn flag_status_byte_spec(r: M25p80Regs) -> u8 {
    FLAG_STATUS_READY | (if r.four_byte_address_mode { FLAG_STATUS_4BYTE_ADDR } else { 0u8 })
}

/// The flag status register.
pub fn flag_status_byte(r: M25p80Regs) -> (out: u8)
    ensures
        out == flag_status_byte_spec(r),
{
    FLAG_STATUS_READY | (if r.four_byte_address_mode { FLAG_STATUS_4BYTE_ADDR } else { 0u8 })
}

/// The configuration register.
pub open spec fn config_byte_spec(r: M25p80Regs) -> u8 {
    r.volatile_config | (if r.four_byte_address_mode { CONFIG_4BYTE_ADDR } else { 0u8 })
}

/// The configuration register.
pub fn config_byte(r: M25p80Regs) -> (out: u8)
    ensures
        out == config_byte_spec(r),
{
    r.volatile_config | (if r.four_byte_address_mode { CONFIG_4BYTE_ADDR } else { 0u8 })
}

/// The volatile configuration a Numonyx part loads from its non-volatile configuration.
pub open spec fn reset_numonyx_spec(r: M25p80Regs, size: u64) -> M25p80Regs {
    let cfg = r.nonvolatile_config;
    let v0 = VCFG_DUMMY | VCFG_WRAP_SEQUENTIAL;
    let v1 = if cfg & NVCFG_XIP_MODE_MASK == NVCFG_XIP_MODE_DISABLED { v0 | VCFG_XIP_MODE_DISABLED } else { v0 };
    let v2 = v1 | ((((cfg >> 12u16) & 0x0fu16) as u8) << 4u8);
    let e0 = EVCFG_OUT_DRIVER_STRENGTH_DEF | EVCFG_VPP_ACCELERATOR | EVCFG_RESET_HOLD_ENABLED;
    let e1 = if cfg & NVCFG_DUAL_IO_MASK != 0 { e0 | EVCFG_DUAL_IO_DISABLED } else { e0 };
    let e2 = if cfg & NVCFG_QUAD_IO_MASK != 0 { e1 | EVCFG_QUAD_IO_DISABLED } else { e1 };
    let four = if cfg & NVCFG_4BYTE_ADDR_MASK == 0 { true } else { r.four_byte_address_mode };
    let q = size / MAX_3BYTE_SIZE;
    let ext = if cfg & NVCFG_LOWER_SEGMENT_MASK == 0 {
        if q == 0 {
            0u8
        } else if q - 1 > 255 {
            255u8
        } else {
            (q - 1) as u8
        }
    } else {
        r.extended_address
    };
    M25p80Regs {
        volatile_config: v2,
        enhanced_volatile_config: e2,
        four_byte_address_mode: four,
        extended_address: ext,
        ..r
    }
}

/// The volatile configuration a Numonyx part loads from its non-volatile configuration.
pub fn reset_numonyx(r: M25p80Regs, size: u64) -> (out: M25p80Regs)
    ensures
        out == reset_numonyx_spec(r, size),
{
    let cfg = r.nonvolatile_config;
    let v0 = VCFG_DUMMY | VCFG_WRAP_SEQUENTIAL;
    let v1 = if cfg & NVCFG_XIP_MODE_MASK == NVCFG_XIP_MODE_DISABLED { v0 | VCFG_XIP_MODE_DISABLED } else { v0 };
    let v2 = v1 | ((((cfg >> 12u16) & 0x0fu16) as u8) << 4u8);
    let e0 = EVCFG_OUT_DRIVER_STRENGTH_DEF | EVCFG_VPP_ACCELERATOR | EVCFG_RESET_HOLD_ENABLED;
    let e1 = if cfg & NVCFG_DUAL_IO_MASK != 0 { e0 | EVCFG_DUAL_IO_DISABLED } else { e0 };
    let e2 = if cfg & NVCFG_QUAD_IO_MASK != 0 { e1 | EVCFG_QUAD_IO_DISABLED } else { e1 };
    let four = if cfg & NVCFG_4BYTE_ADDR_MASK == 0 { true } else { r.four_byte_address_mode };
    let q = size / MAX_3BYTE_SIZE;
    let ext = if cfg & NVCFG_LOWER_SEGMENT_MASK == 0 {
        if q == 0 {
            0u8
        } else if q - 1 > 255 {
            255u8
        } else {
            (q - 1) as u8
        }
    } else {
        r.extended_address
    };
    M25p80Regs {
        volatile_config: v2,
        enhanced_volatile_config: e2,
        four_byte_address_mode: four,
        extended_address: ext,
        ..r
    }
}

/// The volatile configuration after a reset, by manufacturer.
pub open spec fn reset_config_spec(r: M25p80Regs, j0: u8, size: u64) -> M25p80Regs {
    let r0 = M25p80Regs { volatile_config: 0, enhanced_volatile_config: 0, spansion_cr2v: 0, ..r };
    if j0 == JEDEC_NUMONYX {
        reset_numonyx_spec(r0, size)
    } else if j0 == JEDEC_SPANSION {
        M25p80Regs { spansion_cr2v: SPANSION_DEFAULT_CR2V, ..r0 }
    } else if j0 == JEDEC_MACRONIX {
        M25p80Regs { volatile_config: 0x07, ..r0 }
    } else {
        r0
    }
}

/// The volatile configuration after a reset, by manufacturer.
pub fn reset_config(r: M25p80Regs, j0: u8, size: u64) -> (out: M25p80Regs)
    ensures
        out == reset_config_spec(r, j0, size),
{
    let r0 = M25p80Regs { volatile_config: 0, enhanced_volatile_config: 0, spansion_cr2v: 0, ..r };
    if j0 == JEDEC_NUMONYX {
        reset_numonyx(r0, size)
    } else if j0 == JEDEC_SPANSION {
        M25p80Regs { spansion_cr2v: SPANSION_DEFAULT_CR2V, ..r0 }
    } else if j0 == JEDEC_MACRONIX {
        M25p80Regs { volatile_config: 0x07, ..r0 }
    } else {
        r0
    }
}

/// The registers after a device reset (the chip select is kept).
pub open spec fn reset_regs_spec(r: M25p80Regs, j0: u8, size: u64) -> M25p80Regs {
    let r0 = M25p80Regs {
        write_enable: false,
        status_register: 0,
        reset_enable: false,
        four_byte_address_mode: false,
        extended_address: 0,
        quad_enable: false,
        aai_enable: false,
        aai_address: 0,
        ..r
    };
    set_state_spec(reset_config_spec(r0, j0, size), TransferState::Idle)
}

/// The registers after a device reset (the chip select is kept).
pub fn reset_regs(r: M25p80Regs, j0: u8, size: u64) -> (out: M25p80Regs)
    ensures
        out == reset_regs_spec(r, j0, size),
{
    let r0 = M25p80Regs {
        write_enable: false,
        status_register: 0,
        reset_enable: false,
        four_byte_address_mode: false,
        extended_address: 0,
        quad_enable: false,
        aai_enable: false,
        aai_address: 0,
        ..r
    };
    set_state(reset_config(r0, j0, size), TransferState::Idle)
}

/// The registers of a new device.
pub open spec fn initial_regs_spec(j0: u8, size: u64) -> M25p80Regs {
    let r0 = M25p80Regs {
        selected: false,
        write_enable: false,
        status_register: 0,
        reset_enable: false,
        four_byte_address_mode: false,
        extended_address: 0,
        quad_enable: false,
        aai_enable: false,
        aai_address: 0,
        volatile_config: 0,
        enhanced_volatile_config: 0,
        nonvolatile_config: DEFAULT_NONVOLATILE_CONFIG,
        spansion_cr2v: 0,
        state: TransferState::Idle,
    };
    reset_config_spec(r0, j0, size)
}

/// The registers of a new device.
pub fn initial_regs(j0: u8, size: u64) -> (out: M25p80Regs)
    ensures
        out == initial_regs_spec(j0, size),
{
    let r0 = M25p80Regs {
        selected: false,
        write_enable: false,
        status_register: 0,
        reset_enable: false,
        four_byte_address_mode: false,
        extended_address: 0,
        quad_enable: false,
        aai_enable: false,
        aai_address: 0,
        volatile_config: 0,
        enhanced_volatile_config: 0,
        nonvolatile_config: DEFAULT_NONVOLATILE_CONFIG,
        spansion_cr2v: 0,
        state: TransferState::Idle,
    };
    reset_config(r0, j0, size)
}

/// The number of address bytes a command takes.
pub open spec fn address_bytes_spec(r: M25p80Regs) -> u8 {
    if r.four_byte_address_mode { 4u8 } else { 3u8 }
}

/// The number of address bytes a command takes.
pub fn address_bytes(r: M25p80Regs) -> (out: u8)
    ensures
        out == address_bytes_spec(r),
{
    if r.four_byte_address_mode { 4u8 } else { 3u8 }
}

/// The dummy bytes of a Numonyx fast read.
pub open spec fn numonyx_dummy_bytes_spec(r: M25p80Regs, qio: bool) -> u8 {
    let d = (r.volatile_config >> 4u8) & 0x0fu8;
    if d == 0 || d == 0x0f {
        if qio || r.enhanced_volatile_config & EVCFG_QUAD_IO_DISABLED == 0 { 10u8 } else { 8u8 }
    } else {
        d
    }
}

/// The dummy bytes of a Numonyx fast read.
pub fn numonyx_dummy_bytes(r: M25p80Regs, qio: bool) -> (out: u8)
    ensures
        out == numonyx_dummy_bytes_spec(r, qio),
{
    let d = (r.volatile_config >> 4u8) & 0x0fu8;
    if d == 0 || d == 0x0f {
        if qio || r.enhanced_volatile_config & EVCFG_QUAD_IO_DISABLED == 0 { 10u8 } else { 8u8 }
    } else {
        d
    }
}

/// A Numonyx part in quad I/O mode.
pub open spec fn qio_mode_spec(r: M25p80Regs, j0: u8) -> bool {
    j0 == JEDEC_NUMONYX && r.enhanced_volatile_config & EVCFG_QUAD_IO_DISABLED == 0
}

/// A Numonyx part in quad I/O mode.
pub fn qio_mode(r: M25p80Regs, j0: u8) -> (out: bool)
    ensures
        out == qio_mode_spec(r, j0),
{
    j0 == JEDEC_NUMONYX && r.enhanced_volatile_config & EVCFG_QUAD_IO_DISABLED == 0
}

/// A Numonyx part in dual I/O mode.
pub open spec fn dio_mode_spec(r: M25p80Regs, j0: u8) -> bool {
    j0 == JEDEC_NUMONYX && !qio_mode_spec(r, j0) && r.enhanced_volatile_config & EVCFG_DUAL_IO_DISABLED == 0
}

/// A Numonyx part in dual I/O mode.
pub fn dio_mode(r: M25p80Regs, j0: u8) -> (out: bool)
    ensures
        out == dio_mode_spec(r, j0),
{
    j0 == JEDEC_NUMONYX && !qio_mode(r, j0) && r.enhanced_volatile_config & EVCFG_DUAL_IO_DISABLED == 0
}

/// A part in standard (single I/O) mode.
pub open spec fn std_mode_spec(r: M25p80Regs, j0: u8) -> bool {
    j0 != JEDEC_NUMONYX || (!qio_mode_spec(r, j0) && !dio_mode_spec(r, j0))
}

/// A part in standard (single I/O) mode.
pub fn std_mode(r: M25p80Regs, j0: u8) -> (out: bool)
    ensures
        out == std_mode_spec(r, j0),
{
    j0 != JEDEC_NUMONYX || (!qio_mode(r, j0) && !dio_mode(r, j0))
}

/// The dummy bytes of a fast read.
pub open spec fn fast_read_dummy_bytes_spec(r: M25p80Regs, j0: u8) -> u8 {
    if j0 == JEDEC_NUMONYX {
        numonyx_dummy_bytes_spec(r, false)
    } else if j0 == JEDEC_SPANSION {
        r.spansion_cr2v & 0x0fu8
    } else if j0 == JEDEC_WINBOND {
        8u8
    } else if j0 == JEDEC_SST || j0 == JEDEC_ISSI {
        1u8
    } else if j0 == JEDEC_MACRONIX {
        if (r.volatile_config >> 6u8) & 0x03u8 == 1 { 6u8 } else { 8u8 }
    } else {
        0u8
    }
}

/// The dummy bytes of a fast read.
pub fn fast_read_dummy_bytes(r: M25p80Regs, j0: u8) -> (out: u8)
    ensures
        out == fast_read_dummy_bytes_spec(r, j0),
{
    if j0 == JEDEC_NUMONYX {
        numonyx_dummy_bytes(r, false)
    } else if j0 == JEDEC_SPANSION {
        r.spansion_cr2v & 0x0fu8
    } else if j0 == JEDEC_WINBOND {
        8u8
    } else if j0 == JEDEC_SST || j0 == JEDEC_ISSI {
        1u8
    } else if j0 == JEDEC_MACRONIX {
        if (r.volatile_config >> 6u8) & 0x03u8 == 1 { 6u8 } else { 8u8 }
    } else {
        0u8
    }
}

/// The dummy bytes of a dual or quad I/O read.
pub open spec fn io_read_dummy_bytes_spec(r: M25p80Regs, j0: u8, qio: bool) -> u8 {
    if j0 == JEDEC_NUMONYX {
        numonyx_dummy_bytes_spec(r, qio)
    } else if j0 == JEDEC_SPANSION {
        ((r.spansion_cr2v & 0x0fu8) as u16 + 1) as u8
    } else if j0 == JEDEC_WINBOND {
        if qio { 5u8 } else { 1u8 }
    } else if j0 == JEDEC_ISSI {
        if qio { 3u8 } else { 1u8 }
    } else if j0 == JEDEC_MACRONIX {
        let m = (r.volatile_config >> 6u8) & 0x03u8;
        if m == 1 {
            if qio { 4u8 } else { 6u8 }
        } else if m == 2 {
            8u8
        } else {
            if qio { 6u8 } else { 4u8 }
        }
    } else {
        0u8
    }
}

/// The dummy bytes of a dual or quad I/O read.
pub fn io_read_dummy_bytes(r: M25p80Regs, j0: u8, qio: bool) -> (out: u8)
    ensures
        out == io_read_dummy_bytes_spec(r, j0, qio),
{
    if j0 == JEDEC_NUMONYX {
        numonyx_dummy_bytes(r, qio)
    } else if j0 == JEDEC_SPANSION {
        ((r.spansion_cr2v & 0x0fu8) as u16 + 1) as u8
    } else if j0 == JEDEC_WINBOND {
        if qio { 5u8 } else { 1u8 }
    } else if j0 == JEDEC_ISSI {
        if qio { 3u8 } else { 1u8 }
    } else if j0 == JEDEC_MACRONIX {
        let m = (r.volatile_config >> 6u8) & 0x03u8;
        if m == 1 {
            if qio { 4u8 } else { 6u8 }
        } else if m == 2 {
            8u8
        } else {
            if qio { 6u8 } else { 4u8 }
        }
    } else {
        0u8
    }
}

/// The state that collects the address bytes of a command.
pub open spec fn collect_command_spec(action: AddressAction, bytes: u8) -> TransferState {
    TransferState::CollectAddress { command: AddressCommand { action, bytes }, b0: 0, b1: 0, b2: 0, len: 0 }
}

/// The state that collects the address bytes of a command.
pub fn collect_command(action: AddressAction, bytes: u8) -> (out: TransferState)
    ensures
        out == collect_command_spec(action, bytes),
{
    TransferState::CollectAddress { command: AddressCommand { action, bytes }, b0: 0, b1: 0, b2: 0, len: 0 }
}

/// The state of a read at `addr` after `dummy` dummy bytes.
pub open spec fn read_after_dummy_spec(addr: u32, dummy: u8) -> TransferState {
    if dummy == 0 { TransferState::ReadData { addr } } else { TransferState::ReadDummy { addr, remaining: dummy } }
}

/// The state of a read at `addr` after `dummy` dummy bytes.
pub fn read_after_dummy(addr: u32, dummy: u8) -> (out: TransferState)
    ensures
        out == read_after_dummy_spec(addr, dummy),
{
    if dummy == 0 { TransferState::ReadData { addr } } else { TransferState::ReadDummy { addr, remaining: dummy } }
}

/// The state that collects a status-register write.
pub open spec fn collect_status_state_spec(j0: u8) -> TransferState {
    if j0 == JEDEC_MACRONIX || j0 == JEDEC_WINBOND {
        TransferState::CollectStatus { b0: 0, b1: 0, len: 0, needed: 2, variable: true }
    } else if j0 == JEDEC_SPANSION {
        TransferState::CollectStatus { b0: 0, b1: 0, len: 0, needed: 2, variable: false }
    } else {
        TransferState::CollectStatus { b0: 0, b1: 0, len: 0, needed: 1, variable: false }
    }
}

/// The state that collects a status-register write.
pub fn collect_status_state(j0: u8) -> (out: TransferState)
    ensures
        out == collect_status_state_spec(j0),
{
    if j0 == JEDEC_MACRONIX || j0 == JEDEC_WINBOND {
        TransferState::CollectStatus { b0: 0, b1: 0, len: 0, needed: 2, variable: true }
    } else if j0 == JEDEC_SPANSION {
        TransferState::CollectStatus { b0: 0, b1: 0, len: 0, needed: 2, variable: false }
    } else {
        TransferState::CollectStatus { b0: 0, b1: 0, len: 0, needed: 1, variable: false }
    }
}

/// The status bits a write can set.
pub open spec fn status_writable_bits_spec(j0: u8, j2: u8) -> u8 {
    if j0 == JEDEC_NUMONYX && j2 == 0x19 { STATUS_WRITABLE_BITS | STATUS_TOP_BOTTOM | STATUS_BP3 } else { STATUS_WRITABLE_BITS }
}

/// The status bits a write can set.
pub fn status_writable_bits(j0: u8, j2: u8) -> (out: u8)
    ensures
        out == status_writable_bits_spec(j0, j2),
{
    if j0 == JEDEC_NUMONYX && j2 == 0x19 { STATUS_WRITABLE_BITS | STATUS_TOP_BOTTOM | STATUS_BP3 } else { STATUS_WRITABLE_BITS }
}

/// The flash offset of `addr` (wrapping at the end), none on an empty flash.
pub open spec fn flash_addr_spec(size: u64, addr: u32) -> Option<u64> {
    if size == 0 { None } else { Some((addr as u64) % size) }
}

/// The flash offset of `addr` (wrapping at the end), none on an empty flash.
pub fn flash_addr(size: u64, addr: u32) -> (out: Option<u64>)
    ensures
        out == flash_addr_spec(size, addr),
{
    if size == 0 { None } else { Some((addr as u64) % size) }
}

/// The registers after a status-register write of `len` bytes `b0`, `b1`.
pub open spec fn finish_status_write_spec(r: M25p80Regs, j0: u8, j2: u8, b0: u8, b1: u8, len: u8) -> M25p80Regs {
    let r1 = M25p80Regs { status_register: b0 & status_writable_bits_spec(j0, j2), ..r };
    let r2 = if j0 == JEDEC_SPANSION {
        M25p80Regs { quad_enable: b1 & STATUS2_QUAD_ENABLE != 0, ..r1 }
    } else if j0 == JEDEC_MACRONIX {
        let rq = M25p80Regs { quad_enable: b0 & STATUS_QUAD_ENABLE != 0, ..r1 };
        if len > 1 {
            M25p80Regs { volatile_config: b1, four_byte_address_mode: b1 & CONFIG_4BYTE_ADDR != 0, ..rq }
        } else {
            rq
        }
    } else if j0 == JEDEC_WINBOND && len > 1 {
        M25p80Regs { quad_enable: b1 & STATUS2_QUAD_ENABLE != 0, ..r1 }
    } else if j0 == JEDEC_ISSI {
        M25p80Regs { quad_enable: b0 & STATUS_QUAD_ENABLE != 0, ..r1 }
    } else {
        r1
    };
    M25p80Regs { write_enable: false, state: TransferState::IgnoreUntilCs, ..r2 }
}

/// The registers after a status-register write of `len` bytes `b0`, `b1`.
pub fn finish_status_write(r: M25p80Regs, j0: u8, j2: u8, b0: u8, b1: u8, len: u8) -> (out: M25p80Regs)
    ensures
        out == finish_status_write_spec(r, j0, j2, b0, b1, len),
{
    let r1 = M25p80Regs { status_register: b0 & status_writable_bits(j0, j2), ..r };
    let r2 = if j0 == JEDEC_SPANSION {
        M25p80Regs { quad_enable: b1 & STATUS2_QUAD_ENABLE != 0, ..r1 }
    } else if j0 == JEDEC_MACRONIX {
        let rq = M25p80Regs { quad_enable: b0 & STATUS_QUAD_ENABLE != 0, ..r1 };
        if len > 1 {
            M25p80Regs { volatile_config: b1, four_byte_address_mode: b1 & CONFIG_4BYTE_ADDR != 0, ..rq }
        } else {
            rq
        }
    } else if j0 == JEDEC_WINBOND && len > 1 {
        M25p80Regs { quad_enable: b1 & STATUS2_QUAD_ENABLE != 0, ..r1 }
    } else if j0 == JEDEC_ISSI {
        M25p80Regs { quad_enable: b0 & STATUS_QUAD_ENABLE != 0, ..r1 }
    } else {
        r1
    };
    M25p80Regs { write_enable: false, state: TransferState::IgnoreUntilCs, ..r2 }
}

/// The registers after status byte `value` arrives.
pub open spec fn collect_status_spec(r: M25p80Regs, j0: u8, j2: u8, b0: u8, b1: u8, len: u8, needed: u8, variable: bool, value: u8) -> M25p80Regs {
    let nb0 = if len == 0 { value } else { b0 };
    let nb1 = if len == 1 { value } else { b1 };
    let nlen = if len < 2 { ((len as u16) + 1) as u8 } else { len };
    if nlen < needed {
        set_state_spec(r, TransferState::CollectStatus { b0: nb0, b1: nb1, len: nlen, needed, variable })
    } else {
        finish_status_write_spec(r, j0, j2, nb0, nb1, nlen)
    }
}

/// The registers after status byte `value` arrives.
pub fn collect_status(r: M25p80Regs, j0: u8, j2: u8, b0: u8, b1: u8, len: u8, needed: u8, variable: bool, value: u8) -> (out: M25p80Regs)
    ensures
        out == collect_status_spec(r, j0, j2, b0, b1, len, needed, variable, value),
{
    let nb0 = if len == 0 { value } else { b0 };
    let nb1 = if len == 1 { value } else { b1 };
    let nlen = if len < 2 { ((len as u16) + 1) as u8 } else { len };
    if nlen < needed {
        set_state(r, TransferState::CollectStatus { b0: nb0, b1: nb1, len: nlen, needed, variable })
    } else {
        finish_status_write(r, j0, j2, nb0, nb1, nlen)
    }
}

/// The registers after a non-volatile configuration byte arrives.
pub open spec fn collect_nonvolatile_config_spec(r: M25p80Regs, b0: u8, len: u8, value: u8) -> M25p80Regs {
    if len == 0 {
        set_state_spec(r, TransferState::CollectNonvolatileConfig { b0: value, len: 1 })
    } else {
        M25p80Regs {
            nonvolatile_config: (b0 as u16) | ((value as u16) << 8u16),
            state: TransferState::IgnoreUntilCs,
            ..r
        }
    }
}

/// The registers after a non-volatile configuration byte arrives.
pub fn collect_nonvolatile_config(r: M25p80Regs, b0: u8, len: u8, value: u8) -> (out: M25p80Regs)
    ensures
        out == collect_nonvolatile_config_spec(r, b0, len, value),
{
    if len == 0 {
        set_state(r, TransferState::CollectNonvolatileConfig { b0: value, len: 1 })
    } else {
        M25p80Regs {
            nonvolatile_config: (b0 as u16) | ((value as u16) << 8u16),
            state: TransferState::IgnoreUntilCs,
            ..r
        }
    }
}

/// The two identification bytes an SST part answers at `addr`.
pub open spec fn read_id_bytes_spec(j0: u8, j2: u8, size: u64, addr: u32) -> Option<(u8, u8)> {
    if j0 != JEDEC_SST {
        None
    } else {
        match flash_addr_spec(size, addr) {
            None => None,
            Some(o) => if o == 0 {
                Some((j0, j2))
            } else if o == 1 {
                Some((j2, j0))
            } else {
                None
            },
        }
    }
}

/// The two identification bytes an SST part answers at `addr`.
pub fn read_id_bytes(j0: u8, j2: u8, size: u64, addr: u32) -> (out: Option<(u8, u8)>)
    ensures
        out == read_id_bytes_spec(j0, j2, size, addr),
{
    if j0 != JEDEC_SST {
        None
    } else {
        match flash_addr(size, addr) {
            None => None,
            Some(o) => if o == 0 {
                Some((j0, j2))
            } else if o == 1 {
                Some((j2, j0))
            } else {
                None
            },
        }
    }
}

/// Whether the part erases by die (a four-die Numonyx part).
pub open spec fn has_die_erase_spec(j0: u8, j2: u8) -> bool {
    j0 == JEDEC_NUMONYX && j2 == 0x21
}

/// Whether the part erases by die (a four-die Numonyx part).
pub fn has_die_erase(j0: u8, j2: u8) -> (out: bool)
    ensures
        out == has_die_erase_spec(j0, j2),
{
    j0 == JEDEC_NUMONYX && j2 == 0x21
}

/// The registers and the flash operation after address byte `value` arrives.
pub open spec fn collect_address_spec(r: M25p80Regs, j0: u8, j2: u8, size: u64, command: AddressCommand, b0: u8, b1: u8, b2: u8, len: u8, value: u8) -> (M25p80Regs, FlashOp) {
    let nb0 = if len == 0 { value } else { b0 };
    let nb1 = if len == 1 { value } else { b1 };
    let nb2 = if len == 2 { value } else { b2 };
    let nlen = ((len as u16) + 1) as u8;
    if nlen < command.bytes {
        (set_state_spec(r, TransferState::CollectAddress { command, b0: nb0, b1: nb1, b2: nb2, len: nlen }), FlashOp::Nothing)
    } else {
        let addr: u32 = if command.bytes == 3 {
            ((r.extended_address as u32) << 24u32) | ((nb0 as u32) << 16u32) | ((nb1 as u32) << 8u32) | (nb2 as u32)
        } else {
            ((nb0 as u32) << 24u32) | ((nb1 as u32) << 16u32) | ((nb2 as u32) << 8u32) | (value as u32)
        };
        match command.action {
            AddressAction::Read => (set_state_spec(r, TransferState::ReadData { addr }), FlashOp::Nothing),
            AddressAction::FastRead { dummy } => (set_state_spec(r, read_after_dummy_spec(addr, dummy)), FlashOp::Nothing),
            AddressAction::PageProgram => (set_state_spec(r, TransferState::PageProgram { addr, aai: false }), FlashOp::Nothing),
            AddressAction::AaiProgram => {
                let a = addr & 0xffff_fffeu32;
                (
                    M25p80Regs { aai_address: a, state: TransferState::PageProgram { addr: a, aai: true }, ..r },
                    FlashOp::Nothing,
                )
            },
            AddressAction::ReadId => (
                set_state_spec(
                    r,
                    match read_id_bytes_spec(j0, j2, size, addr) {
                        None => TransferState::Idle,
                        Some(p) => TransferState::ReadId { odd: false, b0: p.0, b1: p.1 },
                    },
                ),
                FlashOp::Nothing,
            ),
            AddressAction::Erase { len } => (
                set_state_spec(r, TransferState::IgnoreUntilCs),
                if r.write_enable { FlashOp::EraseRegion { addr, len } } else { FlashOp::Nothing },
            ),
            AddressAction::DieErase => (
                set_state_spec(r, TransferState::IgnoreUntilCs),
                if r.write_enable && has_die_erase_spec(j0, j2) { FlashOp::EraseDie { addr } } else { FlashOp::Nothing },
            ),
        }
    }
}

/// The registers and the flash operation after address byte `value` arrives.
pub fn collect_address(r: M25p80Regs, j0: u8, j2: u8, size: u64, command: AddressCommand, b0: u8, b1: u8, b2: u8, len: u8, value: u8) -> (out: (M25p80Regs, FlashOp))
    ensures
        out == collect_address_spec(r, j0, j2, size, command, b0, b1, b2, len, value),
{
    let nb0 = if len == 0 { value } else { b0 };
    let nb1 = if len == 1 { value } else { b1 };
    let nb2 = if len == 2 { value } else { b2 };
    let nlen = ((len as u16) + 1) as u8;
    if nlen < command.bytes {
        (set_state(r, TransferState::CollectAddress { command, b0: nb0, b1: nb1, b2: nb2, len: nlen }), FlashOp::Nothing)
    } else {
        let addr: u32 = if command.bytes == 3 {
            ((r.extended_address as u32) << 24u32) | ((nb0 as u32) << 16u32) | ((nb1 as u32) << 8u32) | (nb2 as u32)
        } else {
            ((nb0 as u32) << 24u32) | ((nb1 as u32) << 16u32) | ((nb2 as u32) << 8u32) | (value as u32)
        };
        match command.action {
            AddressAction::Read => (set_state(r, TransferState::ReadData { addr }), FlashOp::Nothing),
            AddressAction::FastRead { dummy } => (set_state(r, read_after_dummy(addr, dummy)), FlashOp::Nothing),
            AddressAction::PageProgram => (set_state(r, TransferState::PageProgram { addr, aai: false }), FlashOp::Nothing),
            AddressAction::AaiProgram => {
                let a = addr & 0xffff_fffeu32;
                (
                    M25p80Regs { aai_address: a, state: TransferState::PageProgram { addr: a, aai: true }, ..r },
                    FlashOp::Nothing,
                )
            },
            AddressAction::ReadId => (
                set_state(
                    r,
                    match read_id_bytes(j0, j2, size, addr) {
                        None => TransferState::Idle,
                        Some(p) => TransferState::ReadId { odd: false, b0: p.0, b1: p.1 },
                    },
                ),
                FlashOp::Nothing,
            ),
            AddressAction::Erase { len } => (
                set_state(r, TransferState::IgnoreUntilCs),
                if r.write_enable { FlashOp::EraseRegion { addr, len } } else { FlashOp::Nothing },
            ),
            AddressAction::DieErase => (
                set_state(r, TransferState::IgnoreUntilCs),
                if r.write_enable && has_die_erase(j0, j2) { FlashOp::EraseDie { addr } } else { FlashOp::Nothing },
            ),
        }
    }
}

/// Whether the block protection bits guard the sector of `addr`.
pub open spec fn program_protected_spec(r: M25p80Regs, j0: u8, j2: u8, size: u64, addr: u32) -> bool {
    let pb0 = (r.status_register >> 2u8) & 0x07u8;
    let has = j0 == JEDEC_NUMONYX && j2 == 0x19;
    let pb = if has && r.status_register & STATUS_BP3 != 0 { pb0 | 0x08u8 } else { pb0 };
    if pb == 0 || size == 0 {
        false
    } else {
        let offset = (addr as u64) % size;
        let sector_count = size / ERASE_SECTOR_SIZE + (if size % ERASE_SECTOR_SIZE != 0 { 1u64 } else { 0u64 });
        let sector = offset / ERASE_SECTOR_SIZE;
        let prot: u64 = if pb - 1 < 64 { 1u64 << ((pb - 1) as u64) } else { 0u64 };
        if has && r.status_register & STATUS_TOP_BOTTOM != 0 {
            sector < prot
        } else {
            (sector_count as u128) <= (sector as u128) + (prot as u128)
        }
    }
}

/// Whether the block protection bits guard the sector of `addr`.
pub fn program_protected(r: M25p80Regs, j0: u8, j2: u8, size: u64, addr: u32) -> (out: bool)
    ensures
        out == program_protected_spec(r, j0, j2, size, addr),
{
    let pb0 = (r.status_register >> 2u8) & 0x07u8;
    let has = j0 == JEDEC_NUMONYX && j2 == 0x19;
    let pb = if has && r.status_register & STATUS_BP3 != 0 { pb0 | 0x08u8 } else { pb0 };
    if pb == 0 || size == 0 {
        false
    } else {
        let offset = (addr as u64) % size;
        let sector_count = size / ERASE_SECTOR_SIZE + (if size % ERASE_SECTOR_SIZE != 0 { 1u64 } else { 0u64 });
        let sector = offset / ERASE_SECTOR_SIZE;
        let prot: u64 = if pb - 1 < 64 { 1u64 << ((pb - 1) as u64) } else { 0u64 };
        if has && r.status_register & STATUS_TOP_BOTTOM != 0 {
            sector < prot
        } else {
            (sector_count as u128) <= (sector as u128) + (prot as u128)
        }
    }
}

/// The registers and the flash operation after command byte `value` starts a command.
pub open spec fn start_regs_spec(r: M25p80Regs, j0: u8, j2: u8, size: u64, value: u8) -> (M25p80Regs, FlashOp) {
    let armed = r.reset_enable;
    let r = if value != CMD_RESET_MEMORY { M25p80Regs { reset_enable: false, ..r } } else { r };
    let ig = set_state_spec(r, TransferState::IgnoreUntilCs);
    let ab = address_bytes_spec(r);
    let fast = AddressAction::FastRead { dummy: fast_read_dummy_bytes_spec(r, j0) };
    if value == CMD_NOP {
        (set_state_spec(r, TransferState::Idle), FlashOp::Nothing)
    } else if value == CMD_WRITE_ENABLE {
        (M25p80Regs { write_enable: true, state: TransferState::IgnoreUntilCs, ..r }, FlashOp::Nothing)
    } else if value == CMD_WRITE_STATUS {
        (if r.write_enable { set_state_spec(r, collect_status_state_spec(j0)) } else { ig }, FlashOp::Nothing)
    } else if value == CMD_WRITE_DISABLE {
        (
            M25p80Regs {
                write_enable: false,
                aai_enable: if j0 == JEDEC_SST { false } else { r.aai_enable },
                state: TransferState::IgnoreUntilCs,
                ..r
            },
            FlashOp::Nothing,
        )
    } else if value == CMD_WRITE_STATUS2 {
        (
            if r.write_enable && j0 == JEDEC_WINBOND { set_state_spec(r, TransferState::CollectStatus2) } else { ig },
            FlashOp::Nothing,
        )
    } else if value == CMD_READ_CONTROL_OR_ENABLE_QPI {
        (
            if j0 == JEDEC_SPANSION || j0 == JEDEC_WINBOND {
                set_state_spec(r, TransferState::ReadControl)
            } else if j0 == JEDEC_MACRONIX {
                M25p80Regs { quad_enable: true, state: TransferState::IgnoreUntilCs, ..r }
            } else {
                ig
            },
            FlashOp::Nothing,
        )
    } else if value == CMD_RESET_QIO {
        (M25p80Regs { quad_enable: false, state: TransferState::IgnoreUntilCs, ..r }, FlashOp::Nothing)
    } else if value == CMD_RESET_ENABLE {
        (M25p80Regs { reset_enable: true, state: TransferState::IgnoreUntilCs, ..r }, FlashOp::Nothing)
    } else if value == CMD_RESET_MEMORY {
        (
            set_state_spec(if armed { reset_regs_spec(r, j0, size) } else { r }, TransferState::IgnoreUntilCs),
            FlashOp::Nothing,
        )
    } else if value == CMD_ENTER_4BYTE_ADDR {
        (M25p80Regs { four_byte_address_mode: true, state: TransferState::IgnoreUntilCs, ..r }, FlashOp::Nothing)
    } else if value == CMD_EXIT_4BYTE_ADDR {
        (M25p80Regs { four_byte_address_mode: false, state: TransferState::IgnoreUntilCs, ..r }, FlashOp::Nothing)
    } else if value == CMD_READ_STATUS {
        (set_state_spec(r, TransferState::ReadStatus), FlashOp::Nothing)
    } else if value == CMD_READ_CONFIG {
        (set_state_spec(r, TransferState::ReadConfig), FlashOp::Nothing)
    } else if value == CMD_READ_FLAG_STATUS {
        (set_state_spec(r, TransferState::ReadFlagStatus), FlashOp::Nothing)
    } else if value == CMD_BANK_REGISTER_READ || value == CMD_EXTEND_ADDR_READ {
        (set_state_spec(r, TransferState::ReadExtendedAddress), FlashOp::Nothing)
    } else if value == CMD_BANK_REGISTER_WRITE || value == CMD_EXTEND_ADDR_WRITE {
        (if r.write_enable { set_state_spec(r, TransferState::CollectExtendedAddress) } else { ig }, FlashOp::Nothing)
    } else if value == CMD_JEDEC_ID {
        (
            if std_mode_spec(r, j0) {
                set_state_spec(r, TransferState::ReadJedec { index: 0 })
            } else {
                set_state_spec(r, TransferState::Idle)
            },
            FlashOp::Nothing,
        )
    } else if value == CMD_READ_ID_90 || value == CMD_READ_ID_AB {
        (set_state_spec(r, collect_command_spec(AddressAction::ReadId, ab)), FlashOp::Nothing)
    } else if value == CMD_READ_NONVOLATILE_CONFIG {
        (set_state_spec(r, TransferState::ReadNonvolatileConfig { index: 0 }), FlashOp::Nothing)
    } else if value == CMD_READ_VOLATILE_CONFIG {
        (set_state_spec(r, TransferState::ReadVolatileConfig), FlashOp::Nothing)
    } else if value == CMD_READ_ENHANCED_VOLATILE_CONFIG {
        (set_state_spec(r, TransferState::ReadEnhancedVolatileConfig), FlashOp::Nothing)
    } else if value == CMD_WRITE_VOLATILE_CONFIG {
        (if r.write_enable { set_state_spec(r, TransferState::CollectVolatileConfig) } else { ig }, FlashOp::Nothing)
    } else if value == CMD_WRITE_ENHANCED_VOLATILE_CONFIG {
        (
            if r.write_enable { set_state_spec(r, TransferState::CollectEnhancedVolatileConfig) } else { ig },
            FlashOp::Nothing,
        )
    } else if value == CMD_WRITE_NONVOLATILE_CONFIG {
        (
            if r.write_enable && j0 == JEDEC_NUMONYX {
                set_state_spec(r, TransferState::CollectNonvolatileConfig { b0: 0, len: 0 })
            } else {
                ig
            },
            FlashOp::Nothing,
        )
    } else if value == CMD_READ {
        (
            if std_mode_spec(r, j0) {
                set_state_spec(r, collect_command_spec(AddressAction::Read, ab))
            } else {
                set_state_spec(r, TransferState::Idle)
            },
            FlashOp::Nothing,
        )
    } else if value == CMD_FAST_READ {
        (set_state_spec(r, collect_command_spec(fast, ab)), FlashOp::Nothing)
    } else if value == CMD_DUAL_OUTPUT_READ {
        (
            if qio_mode_spec(r, j0) { set_state_spec(r, TransferState::Idle) } else { set_state_spec(r, collect_command_spec(fast, ab)) },
            FlashOp::Nothing,
        )
    } else if value == CMD_QUAD_OUTPUT_READ {
        (
            if dio_mode_spec(r, j0) { set_state_spec(r, TransferState::Idle) } else { set_state_spec(r, collect_command_spec(fast, ab)) },
            FlashOp::Nothing,
        )
    } else if value == CMD_READ4 {
        (
            if std_mode_spec(r, j0) {
                set_state_spec(r, collect_command_spec(AddressAction::Read, 4))
            } else {
                set_state_spec(r, TransferState::Idle)
            },
            FlashOp::Nothing,
        )
    } else if value == CMD_FAST_READ4 {
        (set_state_spec(r, collect_command_spec(fast, 4)), FlashOp::Nothing)
    } else if value == CMD_DUAL_OUTPUT_READ4 {
        (
            if qio_mode_spec(r, j0) { set_state_spec(r, TransferState::Idle) } else { set_state_spec(r, collect_command_spec(fast, 4)) },
            FlashOp::Nothing,
        )
    } else if value == CMD_QUAD_OUTPUT_READ4 {
        (
            if dio_mode_spec(r, j0) { set_state_spec(r, TransferState::Idle) } else { set_state_spec(r, collect_command_spec(fast, 4)) },
            FlashOp::Nothing,
        )
    } else if value == CMD_DUAL_IO_READ || value == CMD_QUAD_IO_READ {
        let quad = value == CMD_QUAD_IO_READ;
        let blocked = if quad { dio_mode_spec(r, j0) } else { qio_mode_spec(r, j0) };
        (
            if blocked {
                set_state_spec(r, TransferState::Idle)
            } else {
                set_state_spec(
                    r,
                    collect_command_spec(AddressAction::FastRead { dummy: io_read_dummy_bytes_spec(r, j0, quad) }, ab),
                )
            },
            FlashOp::Nothing,
        )
    } else if value == CMD_DUAL_IO_READ4 || value == CMD_QUAD_IO_READ4 {
        let quad = value == CMD_QUAD_IO_READ4;
        let blocked = if quad { dio_mode_spec(r, j0) } else { qio_mode_spec(r, j0) };
        (
            if blocked {
                set_state_spec(r, TransferState::Idle)
            } else {
                set_state_spec(
                    r,
                    collect_command_spec(AddressAction::FastRead { dummy: io_read_dummy_bytes_spec(r, j0, quad) }, 4),
                )
            },
            FlashOp::Nothing,
        )
    } else if value == CMD_PAGE_PROGRAM {
        (set_state_spec(r, collect_command_spec(AddressAction::PageProgram, ab)), FlashOp::Nothing)
    } else if value == CMD_DUAL_PAGE_PROGRAM {
        (
            if qio_mode_spec(r, j0) {
                set_state_spec(r, TransferState::Idle)
            } else {
                set_state_spec(r, collect_command_spec(AddressAction::PageProgram, ab))
            },
            FlashOp::Nothing,
        )
    } else if value == CMD_QUAD_PAGE_PROGRAM {
        (
            if dio_mode_spec(r, j0) {
                set_state_spec(r, TransferState::Idle)
            } else {
                set_state_spec(r, collect_command_spec(AddressAction::PageProgram, ab))
            },
            FlashOp::Nothing,
        )
    } else if value == CMD_PAGE_PROGRAM4 {
        (set_state_spec(r, collect_command_spec(AddressAction::PageProgram, 4)), FlashOp::Nothing)
    } else if value == CMD_QUAD_PAGE_PROGRAM4 || value == CMD_PAGE_PROGRAM4_ALIAS {
        (
            if dio_mode_spec(r, j0) {
                set_state_spec(r, TransferState::Idle)
            } else {
                set_state_spec(r, collect_command_spec(AddressAction::PageProgram, 4))
            },
            FlashOp::Nothing,
        )
    } else if value == CMD_AAI_WORD_PROGRAM {
        (
            if j0 == JEDEC_SST && r.write_enable {
                if r.aai_enable {
                    set_state_spec(r, TransferState::PageProgram { addr: r.aai_address, aai: true })
                } else {
                    M25p80Regs {
                        aai_enable: true,
                        state: collect_command_spec(AddressAction::AaiProgram, ab),
                        ..r
                    }
                }
            } else {
                ig
            },
            FlashOp::Nothing,
        )
    } else if value == CMD_ERASE_4K {
        (set_state_spec(r, collect_command_spec(AddressAction::Erase { len: ERASE_4K_SIZE }, ab)), FlashOp::Nothing)
    } else if value == CMD_ERASE4_4K {
        (set_state_spec(r, collect_command_spec(AddressAction::Erase { len: ERASE_4K_SIZE }, 4)), FlashOp::Nothing)
    } else if value == CMD_ERASE_32K {
        (set_state_spec(r, collect_command_spec(AddressAction::Erase { len: ERASE_32K_SIZE }, ab)), FlashOp::Nothing)
    } else if value == CMD_ERASE4_32K {
        (set_state_spec(r, collect_command_spec(AddressAction::Erase { len: ERASE_32K_SIZE }, 4)), FlashOp::Nothing)
    } else if value == CMD_ERASE_SECTOR {
        (set_state_spec(r, collect_command_spec(AddressAction::Erase { len: 0x1_0000 }, ab)), FlashOp::Nothing)
    } else if value == CMD_ERASE4_SECTOR {
        (set_state_spec(r, collect_command_spec(AddressAction::Erase { len: 0x1_0000 }, 4)), FlashOp::Nothing)
    } else if value == CMD_BULK_ERASE_60 || value == CMD_BULK_ERASE_C7 {
        (ig, if r.write_enable { FlashOp::EraseAll } else { FlashOp::Nothing })
    } else if value == CMD_DIE_ERASE {
        (set_state_spec(r, collect_command_spec(AddressAction::DieErase, ab)), FlashOp::Nothing)
    } else {
        (ig, FlashOp::Nothing)
    }
}

/// The registers and the flash operation after command byte `value` starts a command.
#[verifier::rlimit(60)]
pub fn start_regs(r: M25p80Regs, j0: u8, j2: u8, size: u64, value: u8) -> (out: (M25p80Regs, FlashOp))
    ensures
        out == start_regs_spec(r, j0, j2, size, value),
{
    let armed = r.reset_enable;
    let r = if value != CMD_RESET_MEMORY { M25p80Regs { reset_enable: false, ..r } } else { r };
    let ig = set_state(r, TransferState::IgnoreUntilCs);
    let ab = address_bytes(r);
    let fast = AddressAction::FastRead { dummy: fast_read_dummy_bytes(r, j0) };
    if value == CMD_NOP {
        (set_state(r, TransferState::Idle), FlashOp::Nothing)
    } else if value == CMD_WRITE_ENABLE {
        (M25p80Regs { write_enable: true, state: TransferState::IgnoreUntilCs, ..r }, FlashOp::Nothing)
    } else if value == CMD_WRITE_STATUS {
        (if r.write_enable { set_state(r, collect_status_state(j0)) } else { ig }, FlashOp::Nothing)
    } else if value == CMD_WRITE_DISABLE {
        (
            M25p80Regs {
                write_enable: false,
                aai_enable: if j0 == JEDEC_SST { false } else { r.aai_enable },
                state: TransferState::IgnoreUntilCs,
                ..r
            },
            FlashOp::Nothing,
        )
    } else if value == CMD_WRITE_STATUS2 {
        (
            if r.write_enable && j0 == JEDEC_WINBOND { set_state(r, TransferState::CollectStatus2) } else { ig },
            FlashOp::Nothing,
        )
    } else if value == CMD_READ_CONTROL_OR_ENABLE_QPI {
        (
            if j0 == JEDEC_SPANSION || j0 == JEDEC_WINBOND {
                set_state(r, TransferState::ReadControl)
            } else if j0 == JEDEC_MACRONIX {
                M25p80Regs { quad_enable: true, state: TransferState::IgnoreUntilCs, ..r }
            } else {
                ig
            },
            FlashOp::Nothing,
        )
    } else if value == CMD_RESET_QIO {
        (M25p80Regs { quad_enable: false, state: TransferState::IgnoreUntilCs, ..r }, FlashOp::Nothing)
    } else if value == CMD_RESET_ENABLE {
        (M25p80Regs { reset_enable: true, state: TransferState::IgnoreUntilCs, ..r }, FlashOp::Nothing)
    } else if value == CMD_RESET_MEMORY {
        (
            set_state(if armed { reset_regs(r, j0, size) } else { r }, TransferState::IgnoreUntilCs),
            FlashOp::Nothing,
        )
    } else if value == CMD_ENTER_4BYTE_ADDR {
        (M25p80Regs { four_byte_address_mode: true, state: TransferState::IgnoreUntilCs, ..r }, FlashOp::Nothing)
    } else if value == CMD_EXIT_4BYTE_ADDR {
        (M25p80Regs { four_byte_address_mode: false, state: TransferState::IgnoreUntilCs, ..r }, FlashOp::Nothing)
    } else if value == CMD_READ_STATUS {
        (set_state(r, TransferState::ReadStatus), FlashOp::Nothing)
    } else if value == CMD_READ_CONFIG {
        (set_state(r, TransferState::ReadConfig), FlashOp::Nothing)
    } else if value == CMD_READ_FLAG_STATUS {
        (set_state(r, TransferState::ReadFlagStatus), FlashOp::Nothing)
    } else if value == CMD_BANK_REGISTER_READ || value == CMD_EXTEND_ADDR_READ {
        (set_state(r, TransferState::ReadExtendedAddress), FlashOp::Nothing)
    } else if value == CMD_BANK_REGISTER_WRITE || value == CMD_EXTEND_ADDR_WRITE {
        (if r.write_enable { set_state(r, TransferState::CollectExtendedAddress) } else { ig }, FlashOp::Nothing)
    } else if value == CMD_JEDEC_ID {
        (
            if std_mode(r, j0) {
                set_state(r, TransferState::ReadJedec { index: 0 })
            } else {
                set_state(r, TransferState::Idle)
            },
            FlashOp::Nothing,
        )
    } else if value == CMD_READ_ID_90 || value == CMD_READ_ID_AB {
        (set_state(r, collect_command(AddressAction::ReadId, ab)), FlashOp::Nothing)
    } else if value == CMD_READ_NONVOLATILE_CONFIG {
        (set_state(r, TransferState::ReadNonvolatileConfig { index: 0 }), FlashOp::Nothing)
    } else if value == CMD_READ_VOLATILE_CONFIG {
        (set_state(r, TransferState::ReadVolatileConfig), FlashOp::Nothing)
    } else if value == CMD_READ_ENHANCED_VOLATILE_CONFIG {
        (set_state(r, TransferState::ReadEnhancedVolatileConfig), FlashOp::Nothing)
    } else if value == CMD_WRITE_VOLATILE_CONFIG {
        (if r.write_enable { set_state(r, TransferState::CollectVolatileConfig) } else { ig }, FlashOp::Nothing)
    } else if value == CMD_WRITE_ENHANCED_VOLATILE_CONFIG {
        (
            if r.write_enable { set_state(r, TransferState::CollectEnhancedVolatileConfig) } else { ig },
            FlashOp::Nothing,
        )
    } else if value == CMD_WRITE_NONVOLATILE_CONFIG {
        (
            if r.write_enable && j0 == JEDEC_NUMONYX {
                set_state(r, TransferState::CollectNonvolatileConfig { b0: 0, len: 0 })
            } else {
                ig
            },
            FlashOp::Nothing,
        )
    } else if value == CMD_READ {
        (
            if std_mode(r, j0) {
                set_state(r, collect_command(AddressAction::Read, ab))
            } else {
                set_state(r, TransferState::Idle)
            },
            FlashOp::Nothing,
        )
    } else if value == CMD_FAST_READ {
        (set_state(r, collect_command(fast, ab)), FlashOp::Nothing)
    } else if value == CMD_DUAL_OUTPUT_READ {
        (
            if qio_mode(r, j0) { set_state(r, TransferState::Idle) } else { set_state(r, collect_command(fast, ab)) },
            FlashOp::Nothing,
        )
    } else if value == CMD_QUAD_OUTPUT_READ {
        (
            if dio_mode(r, j0) { set_state(r, TransferState::Idle) } else { set_state(r, collect_command(fast, ab)) },
            FlashOp::Nothing,
        )
    } else if value == CMD_READ4 {
        (
            if std_mode(r, j0) {
                set_state(r, collect_command(AddressAction::Read, 4))
            } else {
                set_state(r, TransferState::Idle)
            },
            FlashOp::Nothing,
        )
    } else if value == CMD_FAST_READ4 {
        (set_state(r, collect_command(fast, 4)), FlashOp::Nothing)
    } else if value == CMD_DUAL_OUTPUT_READ4 {
        (
            if qio_mode(r, j0) { set_state(r, TransferState::Idle) } else { set_state(r, collect_command(fast, 4)) },
            FlashOp::Nothing,
        )
    } else if value == CMD_QUAD_OUTPUT_READ4 {
        (
            if dio_mode(r, j0) { set_state(r, TransferState::Idle) } else { set_state(r, collect_command(fast, 4)) },
            FlashOp::Nothing,
        )
    } else if value == CMD_DUAL_IO_READ || value == CMD_QUAD_IO_READ {
        let quad = value == CMD_QUAD_IO_READ;
        let blocked = if quad { dio_mode(r, j0) } else { qio_mode(r, j0) };
        (
            if blocked {
                set_state(r, TransferState::Idle)
            } else {
                set_state(
                    r,
                    collect_command(AddressAction::FastRead { dummy: io_read_dummy_bytes(r, j0, quad) }, ab),
                )
            },
            FlashOp::Nothing,
        )
    } else if value == CMD_DUAL_IO_READ4 || value == CMD_QUAD_IO_READ4 {
        let quad = value == CMD_QUAD_IO_READ4;
        let blocked = if quad { dio_mode(r, j0) } else { qio_mode(r, j0) };
        (
            if blocked {
                set_state(r, TransferState::Idle)
            } else {
                set_state(
                    r,
                    collect_command(AddressAction::FastRead { dummy: io_read_dummy_bytes(r, j0, quad) }, 4),
                )
            },
            FlashOp::Nothing,
        )
    } else if value == CMD_PAGE_PROGRAM {
        (set_state(r, collect_command(AddressAction::PageProgram, ab)), FlashOp::Nothing)
    } else if value == CMD_DUAL_PAGE_PROGRAM {
        (
            if qio_mode(r, j0) {
                set_state(r, TransferState::Idle)
            } else {
                set_state(r, collect_command(AddressAction::PageProgram, ab))
            },
            FlashOp::Nothing,
        )
    } else if value == CMD_QUAD_PAGE_PROGRAM {
        (
            if dio_mode(r, j0) {
                set_state(r, TransferState::Idle)
            } else {
                set_state(r, collect_command(AddressAction::PageProgram, ab))
            },
            FlashOp::Nothing,
        )
    } else if value == CMD_PAGE_PROGRAM4 {
        (set_state(r, collect_command(AddressAction::PageProgram, 4)), FlashOp::Nothing)
    } else if value == CMD_QUAD_PAGE_PROGRAM4 || value == CMD_PAGE_PROGRAM4_ALIAS {
        (
            if dio_mode(r, j0) {
                set_state(r, TransferState::Idle)
            } else {
                set_state(r, collect_command(AddressAction::PageProgram, 4))
            },
            FlashOp::Nothing,
        )
    } else if value == CMD_AAI_WORD_PROGRAM {
        (
            if j0 == JEDEC_SST && r.write_enable {
                if r.aai_enable {
                    set_state(r, TransferState::PageProgram { addr: r.aai_address, aai: true })
                } else {
                    M25p80Regs {
                        aai_enable: true,
                        state: collect_command(AddressAction::AaiProgram, ab),
                        ..r
                    }
                }
            } else {
                ig
            },
            FlashOp::Nothing,
        )
    } else if value == CMD_ERASE_4K {
        (set_state(r, collect_command(AddressAction::Erase { len: ERASE_4K_SIZE }, ab)), FlashOp::Nothing)
    } else if value == CMD_ERASE4_4K {
        (set_state(r, collect_command(AddressAction::Erase { len: ERASE_4K_SIZE }, 4)), FlashOp::Nothing)
    } else if value == CMD_ERASE_32K {
        (set_state(r, collect_command(AddressAction::Erase { len: ERASE_32K_SIZE }, ab)), FlashOp::Nothing)
    } else if value == CMD_ERASE4_32K {
        (set_state(r, collect_command(AddressAction::Erase { len: ERASE_32K_SIZE }, 4)), FlashOp::Nothing)
    } else if value == CMD_ERASE_SECTOR {
        (set_state(r, collect_command(AddressAction::Erase { len: 0x1_0000 }, ab)), FlashOp::Nothing)
    } else if value == CMD_ERASE4_SECTOR {
        (set_state(r, collect_command(AddressAction::Erase { len: 0x1_0000 }, 4)), FlashOp::Nothing)
    } else if value == CMD_BULK_ERASE_60 || value == CMD_BULK_ERASE_C7 {
        (ig, if r.write_enable { FlashOp::EraseAll } else { FlashOp::Nothing })
    } else if value == CMD_DIE_ERASE {
        (set_state(r, collect_command(AddressAction::DieErase, ab)), FlashOp::Nothing)
    } else {
        (ig, FlashOp::Nothing)
    }
}

/// A selected device receiving byte `value`: the registers after, what it answers, and the flash operation.
pub open spec fn transfer_regs_spec(r: M25p80Regs, j0: u8, j1: u8, j2: u8, size: u64, value: u8) -> (M25p80Regs, TransferOut, FlashOp) {
    let st = r.state;
    let r = set_state_spec(r, TransferState::Idle);
    match st {
        TransferState::Idle => {
            let p = start_regs_spec(r, j0, j2, size, value);
            (p.0, TransferOut::Value(0), p.1)
        },
        TransferState::IgnoreUntilCs => (set_state_spec(r, TransferState::IgnoreUntilCs), TransferOut::Value(0), FlashOp::Nothing),
        TransferState::ReadStatus => (
            set_state_spec(r, TransferState::ReadStatus),
            TransferOut::Value(status_byte_spec(r, j0)),
            FlashOp::Nothing,
        ),
        TransferState::ReadConfig => (r, TransferOut::Value(config_byte_spec(r)), FlashOp::Nothing),
        TransferState::ReadControl => (
            r,
            TransferOut::Value(if r.quad_enable { STATUS2_QUAD_ENABLE } else { 0u8 }),
            FlashOp::Nothing,
        ),
        TransferState::CollectStatus { b0, b1, len, needed, variable } => (
            collect_status_spec(r, j0, j2, b0, b1, len, needed, variable, value),
            TransferOut::Value(0),
            FlashOp::Nothing,
        ),
        TransferState::CollectStatus2 => (
            M25p80Regs { quad_enable: value & STATUS2_QUAD_ENABLE != 0, state: TransferState::IgnoreUntilCs, ..r },
            TransferOut::Value(0),
            FlashOp::Nothing,
        ),
        TransferState::ReadFlagStatus => (
            set_state_spec(r, TransferState::ReadFlagStatus),
            TransferOut::Value(flag_status_byte_spec(r)),
            FlashOp::Nothing,
        ),
        TransferState::ReadExtendedAddress => (r, TransferOut::Value(r.extended_address), FlashOp::Nothing),
        TransferState::ReadJedec { index } => {
            let out = if index == 0 {
                j0
            } else if index == 1 {
                j1
            } else if index == 2 {
                j2
            } else {
                0u8
            };
            (
                if (index as u16) + 1 < 6 {
                    set_state_spec(r, TransferState::ReadJedec { index: ((index as u16) + 1) as u8 })
                } else {
                    r
                },
                TransferOut::Value(out),
                FlashOp::Nothing,
            )
        },
        TransferState::ReadId { odd, b0, b1 } => (
            set_state_spec(r, TransferState::ReadId { odd: !odd, b0, b1 }),
            TransferOut::Value(if odd { b1 } else { b0 }),
            FlashOp::Nothing,
        ),
        TransferState::ReadNonvolatileConfig { index } => {
            let out = if index == 0 {
                (r.nonvolatile_config & 0xffu16) as u8
            } else if index == 1 {
                (r.nonvolatile_config >> 8u16) as u8
            } else {
                0u8
            };
            (
                if index == 0 { set_state_spec(r, TransferState::ReadNonvolatileConfig { index: 1 }) } else { r },
                TransferOut::Value(out),
                FlashOp::Nothing,
            )
        },
        TransferState::ReadVolatileConfig => (r, TransferOut::Value(r.volatile_config), FlashOp::Nothing),
        TransferState::CollectVolatileConfig => (
            M25p80Regs { volatile_config: value, state: TransferState::IgnoreUntilCs, ..r },
            TransferOut::Value(0),
            FlashOp::Nothing,
        ),
        TransferState::ReadEnhancedVolatileConfig => (
            r,
            TransferOut::Value(r.enhanced_volatile_config),
            FlashOp::Nothing,
        ),
        TransferState::CollectEnhancedVolatileConfig => (
            M25p80Regs { enhanced_volatile_config: value, state: TransferState::IgnoreUntilCs, ..r },
            TransferOut::Value(0),
            FlashOp::Nothing,
        ),
        TransferState::CollectNonvolatileConfig { b0, len } => (
            collect_nonvolatile_config_spec(r, b0, len, value),
            TransferOut::Value(0),
            FlashOp::Nothing,
        ),
        TransferState::CollectAddress { command, b0, b1, b2, len } => {
            let p = collect_address_spec(r, j0, j2, size, command, b0, b1, b2, len, value);
            (p.0, TransferOut::Value(0), p.1)
        },
        TransferState::CollectExtendedAddress => (
            M25p80Regs { extended_address: value, state: TransferState::IgnoreUntilCs, ..r },
            TransferOut::Value(0),
            FlashOp::Nothing,
        ),
        TransferState::ReadDummy { addr, remaining } => (
            if remaining > 1 {
                set_state_spec(r, TransferState::ReadDummy { addr, remaining: ((remaining as u16) - 1) as u8 })
            } else {
                set_state_spec(r, TransferState::ReadData { addr })
            },
            TransferOut::Value(0),
            FlashOp::Nothing,
        ),
        TransferState::ReadData { addr } => (
            set_state_spec(r, TransferState::ReadData { addr: ((addr as u64) + 1) as u32 }),
            TransferOut::Flash(addr),
            FlashOp::Nothing,
        ),
        TransferState::PageProgram { addr, aai } => {
            let op = if r.write_enable && size > 0 && !program_protected_spec(r, j0, j2, size, addr) {
                FlashOp::Program { addr, value }
            } else {
                FlashOp::Nothing
            };
            let next = ((addr as u64) + 1) as u32;
            let wraps = match flash_addr_spec(size, next) {
                Some(o) => o == 0,
                None => false,
            };
            let r1 = if aai {
                if wraps {
                    M25p80Regs { aai_address: next, write_enable: false, aai_enable: false, ..r }
                } else {
                    M25p80Regs { aai_address: next, ..r }
                }
            } else {
                r
            };
            (set_state_spec(r1, TransferState::PageProgram { addr: next, aai }), TransferOut::Value(0), op)
        },
    }
}

/// A selected device receiving byte `value`: the registers after, what it answers, and the flash operation.
pub fn transfer_regs(r: M25p80Regs, j0: u8, j1: u8, j2: u8, size: u64, value: u8) -> (out: (M25p80Regs, TransferOut, FlashOp))
    ensures
        out == transfer_regs_spec(r, j0, j1, j2, size, value),
{
    let st = r.state;
    let r = set_state(r, TransferState::Idle);
    match st {
        TransferState::Idle => {
            let p = start_regs(r, j0, j2, size, value);
            (p.0, TransferOut::Value(0), p.1)
        },
        TransferState::IgnoreUntilCs => (set_state(r, TransferState::IgnoreUntilCs), TransferOut::Value(0), FlashOp::Nothing),
        TransferState::ReadStatus => (
            set_state(r, TransferState::ReadStatus),
            TransferOut::Value(status_byte(r, j0)),
            FlashOp::Nothing,
        ),
        TransferState::ReadConfig => (r, TransferOut::Value(config_byte(r)), FlashOp::Nothing),
        TransferState::ReadControl => (
            r,
            TransferOut::Value(if r.quad_enable { STATUS2_QUAD_ENABLE } else { 0u8 }),
            FlashOp::Nothing,
        ),
        TransferState::CollectStatus { b0, b1, len, needed, variable } => (
            collect_status(r, j0, j2, b0, b1, len, needed, variable, value),
            TransferOut::Value(0),
            FlashOp::Nothing,
        ),
        TransferState::CollectStatus2 => (
            M25p80Regs { quad_enable: value & STATUS2_QUAD_ENABLE != 0, state: TransferState::IgnoreUntilCs, ..r },
            TransferOut::Value(0),
            FlashOp::Nothing,
        ),
        TransferState::ReadFlagStatus => (
            set_state(r, TransferState::ReadFlagStatus),
            TransferOut::Value(flag_status_byte(r)),
            FlashOp::Nothing,
        ),
        TransferState::ReadExtendedAddress => (r, TransferOut::Value(r.extended_address), FlashOp::Nothing),
        TransferState::ReadJedec { index } => {
            let out = if index == 0 {
                j0
            } else if index == 1 {
                j1
            } else if index == 2 {
                j2
            } else {
                0u8
            };
            (
                if (index as u16) + 1 < 6 {
                    set_state(r, TransferState::ReadJedec { index: ((index as u16) + 1) as u8 })
                } else {
                    r
                },
                TransferOut::Value(out),
                FlashOp::Nothing,
            )
        },
        TransferState::ReadId { odd, b0, b1 } => (
            set_state(r, TransferState::ReadId { odd: !odd, b0, b1 }),
            TransferOut::Value(if odd { b1 } else { b0 }),
            FlashOp::Nothing,
        ),
        TransferState::ReadNonvolatileConfig { index } => {
            let out = if index == 0 {
                (r.nonvolatile_config & 0xffu16) as u8
            } else if index == 1 {
                (r.nonvolatile_config >> 8u16) as u8
            } else {
                0u8
            };
            (
                if index == 0 { set_state(r, TransferState::ReadNonvolatileConfig { index: 1 }) } else { r },
                TransferOut::Value(out),
                FlashOp::Nothing,
            )
        },
        TransferState::ReadVolatileConfig => (r, TransferOut::Value(r.volatile_config), FlashOp::Nothing),
        TransferState::CollectVolatileConfig => (
            M25p80Regs { volatile_config: value, state: TransferState::IgnoreUntilCs, ..r },
            TransferOut::Value(0),
            FlashOp::Nothing,
        ),
        TransferState::ReadEnhancedVolatileConfig => (
            r,
            TransferOut::Value(r.enhanced_volatile_config),
            FlashOp::Nothing,
        ),
        TransferState::CollectEnhancedVolatileConfig => (
            M25p80Regs { enhanced_volatile_config: value, state: TransferState::IgnoreUntilCs, ..r },
            TransferOut::Value(0),
            FlashOp::Nothing,
        ),
        TransferState::CollectNonvolatileConfig { b0, len } => (
            collect_nonvolatile_config(r, b0, len, value),
            TransferOut::Value(0),
            FlashOp::Nothing,
        ),
        TransferState::CollectAddress { command, b0, b1, b2, len } => {
            let p = collect_address(r, j0, j2, size, command, b0, b1, b2, len, value);
            (p.0, TransferOut::Value(0), p.1)
        },
        TransferState::CollectExtendedAddress => (
            M25p80Regs { extended_address: value, state: TransferState::IgnoreUntilCs, ..r },
            TransferOut::Value(0),
            FlashOp::Nothing,
        ),
        TransferState::ReadDummy { addr, remaining } => (
            if remaining > 1 {
                set_state(r, TransferState::ReadDummy { addr, remaining: ((remaining as u16) - 1) as u8 })
            } else {
                set_state(r, TransferState::ReadData { addr })
            },
            TransferOut::Value(0),
            FlashOp::Nothing,
        ),
        TransferState::ReadData { addr } => (
            set_state(r, TransferState::ReadData { addr: ((addr as u64) + 1) as u32 }),
            TransferOut::Flash(addr),
            FlashOp::Nothing,
        ),
        TransferState::PageProgram { addr, aai } => {
            let op = if r.write_enable && size > 0 && !program_protected(r, j0, j2, size, addr) {
                FlashOp::Program { addr, value }
            } else {
                FlashOp::Nothing
            };
            let next = ((addr as u64) + 1) as u32;
            let wraps = match flash_addr(size, next) {
                Some(o) => o == 0,
                None => false,
            };
            let r1 = if aai {
                if wraps {
                    M25p80Regs { aai_address: next, write_enable: false, aai_enable: false, ..r }
                } else {
                    M25p80Regs { aai_address: next, ..r }
                }
            } else {
                r
            };
            (set_state(r1, TransferState::PageProgram { addr: next, aai }), TransferOut::Value(0), op)
        },
    }
}

/// The registers after the (active-low) chip select goes to `cs`: deselecting ends the command, completing a status write of a variable length.
pub open spec fn set_cs_regs_spec(r: M25p80Regs, j0: u8, j2: u8, cs: bool) -> M25p80Regs {
    let sel = !cs;
    let r1 = if r.selected && !sel {
        let r2 = match r.state {
            TransferState::CollectStatus { b0, b1, len, needed, variable } => if variable && len > 0 {
                finish_status_write_spec(r, j0, j2, b0, b1, len)
            } else {
                r
            },
            _ => r,
        };
        set_state_spec(r2, TransferState::Idle)
    } else {
        r
    };
    M25p80Regs { selected: sel, ..r1 }
}

/// The registers after the (active-low) chip select goes to `cs`: deselecting ends the command, completing a status write of a variable length.
pub fn set_cs_regs(r: M25p80Regs, j0: u8, j2: u8, cs: bool) -> (out: M25p80Regs)
    ensures
        out == set_cs_regs_spec(r, j0, j2, cs),
{
    let sel = !cs;
    let r1 = if r.selected && !sel {
        let r2 = match r.state {
            TransferState::CollectStatus { b0, b1, len, needed, variable } => if variable && len > 0 {
                finish_status_write(r, j0, j2, b0, b1, len)
            } else {
                r
            },
            _ => r,
        };
        set_state(r2, TransferState::Idle)
    } else {
        r
    };
    M25p80Regs { selected: sel, ..r1 }
}

/// What the bus and the flash see of a device: its registers,
/// identification, chip select, and flash (its bytes, erase block, erase
/// value, and whether it refuses program and erase).
pub struct M25p80State {
    pub regs: M25p80Regs,
    pub jedec: (u8, u8, u8),
    pub cs_index: u8,
    pub flash: Seq<u8>,
    pub block: u32,
    pub fill: u8,
    pub blocked: bool,
}

/// The flash size of state `s`.
pub open spec fn flash_size(s: M25p80State) -> u64 {
    s.flash.len() as u64
}

/// The flash byte a read of `addr` returns (0 on an empty flash).
pub open spec fn flash_byte(s: M25p80State, addr: u32) -> u8 {
    if flash_size(s) == 0 {
        0
    } else {
        s.flash[((addr as u64) % flash_size(s)) as int]
    }
}

/// The flash after erasing `len` bytes at `base`: nothing happens when
/// the flash refuses it, when the region is not aligned to erase blocks,
/// or when it runs past the end.
pub open spec fn erase_result(c: Seq<u8>, base: int, len: int, block: u32, fill: u8, blocked: bool) -> Seq<u8> {
    if !blocked && multiple_of(base, block as int) && multiple_of(len, block as int) && base + len <= c.len() {
        erased(c, base, len, fill)
    } else {
        c
    }
}

/// The flash of `s` after operation `op`.
pub open spec fn apply_op_spec(s: M25p80State, op: FlashOp) -> Seq<u8> {
    let size = flash_size(s);
    match op {
        FlashOp::Nothing => s.flash,
        FlashOp::EraseAll => if s.blocked || size == 0 {
            s.flash
        } else {
            erased(s.flash, 0, s.flash.len() as int, s.fill)
        },
        FlashOp::EraseRegion { addr, len } => if size == 0 {
            s.flash
        } else {
            let off = (addr as u64) % size;
            let base = off - off % (s.block as u64);
            erase_result(s.flash, base, len as int, s.block, s.fill, s.blocked)
        },
        FlashOp::EraseDie { addr } => if size == 0 || size / 4 == 0 {
            s.flash
        } else {
            let dl = size / 4;
            let off = (addr as u64) % size;
            let base = off - off % dl;
            erase_result(s.flash, base, dl as int, s.block, s.fill, s.blocked)
        },
        FlashOp::Program { addr, value } => if size == 0 || s.blocked {
            s.flash
        } else {
            programmed(s.flash, ((addr as u64) % size) as int, seq![value])
        },
    }
}

/// The device after a command byte `cmd` starts a command.
pub open spec fn m25p80_start(s: M25p80State, cmd: u8) -> M25p80State {
    let p = start_regs_spec(s.regs, s.jedec.0, s.jedec.2, flash_size(s), cmd);
    M25p80State { regs: p.0, flash: apply_op_spec(s, p.1), ..s }
}

impl SpiDevState for M25p80State {
    open spec fn reply(&self, val: u32) -> u32 {
        if !self.regs.selected {
            0xff
        } else {
            match transfer_regs_spec(self.regs, self.jedec.0, self.jedec.1, self.jedec.2, flash_size(*self), val as u8).1 {
                TransferOut::Value(v) => v as u32,
                TransferOut::Flash(a) => flash_byte(*self, a) as u32,
            }
        }
    }

    open spec fn after_transfer(&self, val: u32) -> Self {
        if !self.regs.selected {
            *self
        } else {
            let t = transfer_regs_spec(self.regs, self.jedec.0, self.jedec.1, self.jedec.2, flash_size(*self), val as u8);
            M25p80State { regs: t.0, flash: apply_op_spec(*self, t.2), ..*self }
        }
    }

    open spec fn after_cs(&self, cs: bool) -> Self {
        M25p80State { regs: set_cs_regs_spec(self.regs, self.jedec.0, self.jedec.2, cs), ..*self }
    }

    open spec fn polarity(&self) -> SpiCsPolarity {
        SpiCsPolarity::Low
    }

    open spec fn index(&self) -> u8 {
        self.cs_index
    }
}

/// An M25P80-family SPI NOR flash on chip select `cs_index`.
pub struct M25p80<B: BlockBackend> {
    cs_index: u8,
    j0: u8,
    j1: u8,
    j2: u8,
    flash: Option<FlashMedia<B>>,
    regs: M25p80Regs,
}

/// A flash the device can work on: its backend never fails on its own,
/// its erase block is not empty, and its size fits in memory.
pub open spec fn flash_ok<B: BlockBackend>(f: FlashMedia<B>) -> bool {
    &&& f.inner().reliable()
    &&& f.block() > 0
    &&& f.inner().contents().len() <= usize::MAX
}

impl<B: BlockBackend> M25p80<B> {
    #[verifier::type_invariant]
    spec fn inv(self) -> bool {
        self.flash matches Some(f) ==> flash_ok(f)
    }

    /// The device as the bus and the flash see it.
    pub closed spec fn view_state(&self) -> M25p80State {
        match self.flash {
            Some(f) => M25p80State {
                regs: self.regs,
                jedec: (self.j0, self.j1, self.j2),
                cs_index: self.cs_index,
                flash: f.inner().contents(),
                block: f.block(),
                fill: f.fill(),
                blocked: f.locked() || f.inner().is_readonly(),
            },
            None => M25p80State {
                regs: self.regs,
                jedec: (self.j0, self.j1, self.j2),
                cs_index: self.cs_index,
                flash: Seq::empty(),
                block: 1,
                fill: 0xff,
                blocked: true,
            },
        }
    }

    /// A device on chip select `cs_index` with the identification
    /// `jedec_id` (manufacturer first), working on `flash`.
    pub fn new(cs_index: u8, flash: FlashMedia<B>, jedec_id: [u8; 3]) -> (r: Self)
        requires
            flash_ok(flash),
        ensures
            r.view_state().regs == initial_regs_spec(jedec_id@[0], flash.inner().contents().len() as u64),
            r.view_state().jedec == (jedec_id@[0], jedec_id@[1], jedec_id@[2]),
            r.view_state().cs_index == cs_index,
            r.view_state().flash == flash.inner().contents(),
            r.view_state().block == flash.block() && r.view_state().fill == flash.fill(),
            r.view_state().blocked == (flash.locked() || flash.inner().is_readonly()),
    {
        let size = flash.backend().size();
        let regs = initial_regs(jedec_id[0], size);
        M25p80 { cs_index, j0: jedec_id[0], j1: jedec_id[1], j2: jedec_id[2], flash: Some(flash), regs }
    }

    /// Reset the registers (the flash keeps its bytes).
    pub fn reset_runtime(&mut self)
        ensures
            final(self).view_state() == (M25p80State {
                regs: reset_regs_spec(old(self).view_state().regs, old(self).view_state().jedec.0, flash_size(old(self).view_state())),
                ..old(self).view_state()
            }),
    {
        proof {
            use_type_invariant(&*self);
        }
        let size = self.size();
        self.regs = reset_regs(self.regs, self.j0, size);
    }

    fn size(&self) -> (r: u64)
        ensures
            r == flash_size(self.view_state()),
            r as int == self.view_state().flash.len(),
    {
        proof {
            use_type_invariant(self);
        }
        match &self.flash {
            Some(f) => f.backend().size(),
            None => 0,
        }
    }

    fn read_flash(&self, addr: u32) -> (r: u8)
        ensures
            r == flash_byte(self.view_state(), addr),
    {
        proof {
            use_type_invariant(self);
        }
        match &self.flash {
            Some(f) => {
                let size = f.backend().size();
                if size == 0 {
                    return 0;
                }
                let off = (addr as u64) % size;
                let mut buf: Vec<u8> = vec![0u8; 1];
                match f.read(off, buf.as_mut_slice()) {
                    Ok(()) => buf[0],
                    Err(_) => 0,
                }
            },
            None => 0,
        }
    }

    fn apply_op(&mut self, op: FlashOp)
        ensures
            final(self).view_state() == (M25p80State {
                flash: apply_op_spec(old(self).view_state(), op),
                ..old(self).view_state()
            }),
    {
        proof {
            use_type_invariant(&*self);
        }
        let ghost s = self.view_state();
        let mut fl: Option<FlashMedia<B>> = None;
        std::mem::swap(&mut fl, &mut self.flash);
        match fl {
            None => {
                self.flash = None;
                proof {
                    assert(apply_op_spec(s, op) =~= s.flash);
                }
            },
            Some(mut f) => {
                let size = f.backend().size();
                match op {
                    FlashOp::Nothing => {},
                    FlashOp::EraseAll => {
                        let _ = f.erase_all();
                        proof {
                            if size == 0 {
                                assert(f.inner().contents() =~= s.flash);
                            }
                        }
                    },
                    FlashOp::EraseRegion { addr, len } => {
                        if size != 0 {
                            let off = (addr as u64) % size;
                            let block = f.erase_block_size() as u64;
                            assert(off % block <= off) by (nonlinear_arith)
                                requires
                                    block > 0,
                            ;
                            let base = off - off % block;
                            let _ = f.erase(base, len as u64);
                        }
                    },
                    FlashOp::EraseDie { addr } => {
                        if size != 0 && size / 4 != 0 {
                            let dl = size / 4;
                            let off = (addr as u64) % size;
                            assert(off % dl <= off) by (nonlinear_arith)
                                requires
                                    dl > 0,
                            ;
                            let base = off - off % dl;
                            let _ = f.erase(base, dl);
                        }
                    },
                    FlashOp::Program { addr, value } => {
                        if size != 0 {
                            let off = (addr as u64) % size;
                            let _ = f.program(off, &[value]);
                        }
                    },
                }
                proof {
                    assert(f.inner().contents() =~= apply_op_spec(s, op));
                }
                self.flash = Some(f);
            },
        }
    }

    /// Start a command with command byte `cmd` (the device answers 0).
    pub fn start_command(&mut self, cmd: u8) -> (r: u8)
        ensures
            r == 0,
            final(self).view_state() == m25p80_start(old(self).view_state(), cmd),
    {
        proof {
            use_type_invariant(&*self);
        }
        let size = self.size();
        let (regs, op) = start_regs(self.regs, self.j0, self.j2, size, cmd);
        self.regs = regs;
        self.apply_op(op);
        0
    }
}

impl<B: BlockBackend> SpiSlave for M25p80<B> {
    type State = M25p80State;

    closed spec fn state(&self) -> M25p80State {
        self.view_state()
    }

    fn transfer(&mut self, val: u32) -> (r: u32) {
        proof {
            use_type_invariant(&*self);
        }
        let value = val as u8;
        if !self.regs.selected {
            return 0xff;
        }
        let size = self.size();
        let (regs, out, op) = transfer_regs(self.regs, self.j0, self.j1, self.j2, size, value);
        let reply = match out {
            TransferOut::Value(v) => v,
            TransferOut::Flash(a) => self.read_flash(a),
        };
        self.regs = regs;
        self.apply_op(op);
        reply as u32
    }

    fn set_cs(&mut self, cs: bool) {
        proof {
            use_type_invariant(&*self);
        }
        self.regs = set_cs_regs(self.regs, self.j0, self.j2, cs);
    }

    fn cs_polarity(&self) -> (r: SpiCsPolarity) {
        SpiCsPolarity::Low
    }

    fn cs_index(&self) -> (r: u8) {
        self.cs_index
    }
}


/// The bytes the three-byte-address erase commands erase: 4 KiB for
/// 0x20, 32 KiB for 0x52 and 64 KiB for 0xd8.
pub open spec fn erase_command_len(cmd: u8) -> int {
    if cmd == 0x20 {
        0x1000
    } else if cmd == 0x52 {
        0x8000
    } else {
        0x10000
    }
}

proof fn lemma_start_erase(s: M25p80State, cmd: u8)
    requires
        s.regs.selected,
        s.regs.state == TransferState::Idle,
        !s.regs.four_byte_address_mode,
        cmd == 0x20 || cmd == 0x52 || cmd == 0xd8,
    ensures
        ({
            let t = s.after_transfer(cmd as u32);
            &&& t.flash == s.flash
            &&& t.regs.selected && t.regs.write_enable == s.regs.write_enable
            &&& t.regs.extended_address == s.regs.extended_address
            &&& t.regs.state == collect_command_spec(
                AddressAction::Erase { len: erase_command_len(cmd) as u32 },
                3,
            )
            &&& t.jedec == s.jedec && t.block == s.block && t.fill == s.fill && t.blocked == s.blocked
        }),
{
    assert((cmd as u32) as u8 == cmd);
    let r = set_state_spec(s.regs, TransferState::Idle);
    let p = start_regs_spec(r, s.jedec.0, s.jedec.2, flash_size(s), cmd);
    assert(p.1 == FlashOp::Nothing);
    assert(p.0.state == collect_command_spec(AddressAction::Erase { len: erase_command_len(cmd) as u32 }, 3));
}

/// Block erase: with write enable set, an erase command (0x20, 0x52 or
/// 0xd8) and three address bytes set to the erase value every byte of
/// the 4, 32 or 64 KiB that start at the erase block holding the address
/// (taken modulo the flash size), and keep every other byte, when the
/// flash takes the erase (not protected, the length a whole number of
/// erase blocks, and the region inside the flash).
#[verifier::rlimit(80)]
pub proof fn lemma_block_erase(s: M25p80State, cmd: u8, a2: u8, a1: u8, a0: u8)
    requires
        cmd == 0x20 || cmd == 0x52 || cmd == 0xd8,
        s.regs.selected,
        s.regs.state == TransferState::Idle,
        s.regs.write_enable,
        !s.regs.four_byte_address_mode,
        s.regs.extended_address == 0,
        !s.blocked,
        s.block > 0,
        erase_command_len(cmd) % (s.block as int) == 0,
        0 < s.flash.len() <= u64::MAX,
        ({
            let off = (a2 as int * 65536 + a1 as int * 256 + a0 as int) % (s.flash.len() as int);
            off - off % (s.block as int) + erase_command_len(cmd) <= s.flash.len()
        }),
    ensures
        ({
            let t = s.after_transfer(cmd as u32).after_transfer(a2 as u32).after_transfer(a1 as u32).after_transfer(
                a0 as u32,
            );
            let off = (a2 as int * 65536 + a1 as int * 256 + a0 as int) % (s.flash.len() as int);
            let base = off - off % (s.block as int);
            &&& t.flash.len() == s.flash.len()
            &&& forall|i: int|
                0 <= i < s.flash.len() ==> #[trigger] t.flash[i] == (if base <= i < base + erase_command_len(cmd) {
                    s.fill
                } else {
                    s.flash[i]
                })
        }),
{
    lemma_start_erase(s, cmd);
    let len = erase_command_len(cmd) as u32;
    let s1 = s.after_transfer(cmd as u32);
    let command = AddressCommand { action: AddressAction::Erase { len }, bytes: 3 };
    assert((a2 as u32) as u8 == a2 && (a1 as u32) as u8 == a1 && (a0 as u32) as u8 == a0);
    let s2 = s1.after_transfer(a2 as u32);
    assert(s2.flash == s.flash);
    assert(s2.regs.state == TransferState::CollectAddress { command, b0: a2, b1: 0, b2: 0, len: 1 });
    let s3 = s2.after_transfer(a1 as u32);
    assert(s3.flash == s.flash);
    assert(s3.regs.state == TransferState::CollectAddress { command, b0: a2, b1: a1, b2: 0, len: 2 });
    let addr: u32 = ((0u8 as u32) << 24u32) | ((a2 as u32) << 16u32) | ((a1 as u32) << 8u32) | (a0 as u32);
    assert(((0u8 as u32) << 24u32) | ((a2 as u32) << 16u32) | ((a1 as u32) << 8u32) | (a0 as u32) == a2 as int
        * 65536 + a1 as int * 256 + a0 as int) by (bit_vector);
    let p = collect_address_spec(
        set_state_spec(s3.regs, TransferState::Idle),
        s.jedec.0,
        s.jedec.2,
        flash_size(s3),
        command,
        a2,
        a1,
        0,
        2,
        a0,
    );
    assert(p.1 == FlashOp::EraseRegion { addr, len });
    let t = s3.after_transfer(a0 as u32);
    assert(t.flash == apply_op_spec(s3, FlashOp::EraseRegion { addr, len }));
    let size = flash_size(s3);
    let off = (addr as u64) % size;
    let blk = s.block as u64;
    let base = off - off % blk;
    assert(off % blk <= off) by (nonlinear_arith)
        requires
            blk > 0,
    ;
    assert(multiple_of(base as int, s.block as int)) by {
        vstd::arithmetic::div_mod::lemma_fundamental_div_mod(off as int, blk as int);
        vstd::arithmetic::div_mod::lemma_mod_multiples_basic((off / blk) as int, blk as int);
        assert(base == blk * (off / blk));
    }
    assert(t.flash == erased(s.flash, base as int, len as int, s.fill));
}

} // verus!
