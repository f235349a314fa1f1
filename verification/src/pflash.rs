//! Parallel NOR flash with the CFI command sets 0001 (Intel) and 0002
//! (AMD): configuration, its validation, the CFI query tables and the
//! bus-width helpers the command logic uses.
use vstd::prelude::*;
use crate::storage::{BlockBackend, FlashMedia, StorageError, programmed, erased};

verus! {

pub const CFI01_TABLE_LEN: usize = 0x52;
pub const CFI02_TABLE_LEN: usize = 0x4d;
pub const STATUS_READY: u8 = 0x80;
pub const STATUS_PROGRAM_ERROR: u8 = 0x10;
pub const STATUS_ERASE_ERROR: u8 = 0x20;
pub const CFI02_WCYCLE_CFI: u8 = 7;
pub const CFI02_WCYCLE_AUTOSELECT_CFI: u8 = 8;

/// Geometry and identity of a CFI 0001 flash.
#[derive(Debug, Clone, Copy, PartialEq, Eq, Structural)]
pub struct PFlashCfi01Config {
    pub bank_width: u8,
    pub device_width: u8,
    pub max_device_width: u8,
    pub sector_len: u64,
    pub num_blocks: u32,
    pub big_endian: bool,
    pub read_only: bool,
    pub ident0: u16,
    pub ident1: u16,
    pub ident2: u16,
    pub ident3: u16,
}

impl Default for PFlashCfi01Config {
    fn default() -> (r: Self)
        ensures
            r == (PFlashCfi01Config {
                bank_width: 1,
                device_width: 0,
                max_device_width: 0,
                sector_len: 4096,
                num_blocks: 1,
                big_endian: false,
                read_only: false,
                ident0: 0,
                ident1: 0,
                ident2: 0,
                ident3: 0,
            }),
    {
        PFlashCfi01Config {
            bank_width: 1,
            device_width: 0,
            max_device_width: 0,
            sector_len: 4096,
            num_blocks: 1,
            big_endian: false,
            read_only: false,
            ident0: 0,
            ident1: 0,
            ident2: 0,
            ident3: 0,
        }
    }
}

/// Geometry, identity and unlock addresses of a CFI 0002 flash.
#[derive(Debug, Clone, Copy, PartialEq, Eq, Structural)]
pub struct PFlashCfi02Config {
    pub width: u8,
    pub sector_len: u64,
    pub num_blocks: u32,
    pub big_endian: bool,
    pub read_only: bool,
    pub ident0: u16,
    pub ident1: u16,
    pub ident2: u16,
    pub ident3: u16,
    pub unlock_addr0: u16,
    pub unlock_addr1: u16,
}

impl Default for PFlashCfi02Config {
    fn default() -> (r: Self)
        ensures
            r == (PFlashCfi02Config {
                width: 1,
                sector_len: 4096,
                num_blocks: 1,
                big_endian: false,
                read_only: false,
                ident0: 0,
                ident1: 0,
                ident2: 0xffff,
                ident3: 0xffff,
                unlock_addr0: 0x555,
                unlock_addr1: 0x2aa,
            }),
    {
        PFlashCfi02Config {
            width: 1,
            sector_len: 4096,
            num_blocks: 1,
            big_endian: false,
            read_only: false,
            ident0: 0,
            ident1: 0,
            ident2: 0xffff,
            ident3: 0xffff,
            unlock_addr0: 0x555,
            unlock_addr1: 0x2aa,
        }
    }
}

/// Why a flash configuration is refused.
#[derive(Debug, Clone, Copy, PartialEq, Eq, Structural)]
pub enum PFlashConfigError {
    SectorLenZero,
    NumBlocksZero,
    BankWidth,
    DeviceWidth,
    MaxDeviceWidth,
    Width,
    /// `sector_len * num_blocks` overflows.
    Overflow,
}

impl PFlashConfigError {
    /// The text of the description.
    pub open spec fn message_text(&self) -> Seq<char> {
        match self {
            PFlashConfigError::SectorLenZero => "sector_len must be non-zero"@,
            PFlashConfigError::NumBlocksZero => "num_blocks must be non-zero"@,
            PFlashConfigError::BankWidth => "bank_width must be a non-zero power of two"@,
            PFlashConfigError::DeviceWidth => "device_width must be zero or a power of two no larger than bank_width"@,
            PFlashConfigError::MaxDeviceWidth => "max_device_width must be zero or a power of two at least device_width"@,
            PFlashConfigError::Width => "width must be a non-zero power of two no larger than 4"@,
            PFlashConfigError::Overflow => "offset + length overflow"@,
        }
    }

    /// A description of the error.
    pub fn message(&self) -> (r: &'static str)
        ensures
            r@ == self.message_text(),
    {
        match self {
            PFlashConfigError::SectorLenZero => "sector_len must be non-zero",
            PFlashConfigError::NumBlocksZero => "num_blocks must be non-zero",
            PFlashConfigError::BankWidth => "bank_width must be a non-zero power of two",
            PFlashConfigError::DeviceWidth =>
                "device_width must be zero or a power of two no larger than bank_width",
            PFlashConfigError::MaxDeviceWidth =>
                "max_device_width must be zero or a power of two at least device_width",
            PFlashConfigError::Width => "width must be a non-zero power of two no larger than 4",
            PFlashConfigError::Overflow => "offset + length overflow",
        }
    }
}

/// `v` is a power of two (1, 2, 4, ..., 128).
pub open spec fn pow2_u8(v: u8) -> bool {
    v == 1 || v == 2 || v == 4 || v == 8 || v == 16 || v == 32 || v == 64 || v == 128
}

fn is_power_of_two(v: u8) -> (r: bool)
    ensures
        r == pow2_u8(v),
{
    v == 1 || v == 2 || v == 4 || v == 8 || v == 16 || v == 32 || v == 64 || v == 128
}

/// The checks common to both command sets.
pub open spec fn common_check(sector_len: u64, num_blocks: u32) -> Result<(), PFlashConfigError> {
    if sector_len == 0 {
        Err(PFlashConfigError::SectorLenZero)
    } else if num_blocks == 0 {
        Err(PFlashConfigError::NumBlocksZero)
    } else {
        Ok(())
    }
}

/// Check that the geometry is non-empty.
pub fn validate_common(sector_len: u64, num_blocks: u32) -> (r: Result<(), PFlashConfigError>)
    ensures
        r == common_check(sector_len, num_blocks),
{
    if sector_len == 0 {
        return Err(PFlashConfigError::SectorLenZero);
    }
    if num_blocks == 0 {
        return Err(PFlashConfigError::NumBlocksZero);
    }
    Ok(())
}

/// The verdict on a CFI 0001 configuration.
pub open spec fn cfi01_check(c: PFlashCfi01Config) -> Result<(), PFlashConfigError> {
    match common_check(c.sector_len, c.num_blocks) {
        Err(e) => Err(e),
        Ok(_) => if !pow2_u8(c.bank_width) {
            Err(PFlashConfigError::BankWidth)
        } else if c.device_width != 0 && (!pow2_u8(c.device_width) || c.device_width > c.bank_width) {
            Err(PFlashConfigError::DeviceWidth)
        } else if c.max_device_width != 0 && (!pow2_u8(c.max_device_width) || c.max_device_width
            < c.device_width) {
            Err(PFlashConfigError::MaxDeviceWidth)
        } else {
            Ok(())
        },
    }
}

/// Check a CFI 0001 configuration.
pub fn validate_cfi01(c: &PFlashCfi01Config) -> (r: Result<(), PFlashConfigError>)
    ensures
        r == cfi01_check(*c),
{
    validate_common(c.sector_len, c.num_blocks)?;
    if !is_power_of_two(c.bank_width) {
        return Err(PFlashConfigError::BankWidth);
    }
    if c.device_width != 0 && (!is_power_of_two(c.device_width) || c.device_width > c.bank_width) {
        return Err(PFlashConfigError::DeviceWidth);
    }
    if c.max_device_width != 0 && (!is_power_of_two(c.max_device_width) || c.max_device_width
        < c.device_width) {
        return Err(PFlashConfigError::MaxDeviceWidth);
    }
    Ok(())
}

/// The accepted form of a CFI 0002 configuration: the unlock addresses
/// cut to 11 bits, and the chip length.
pub open spec fn cfi02_check(c: PFlashCfi02Config) -> Result<(PFlashCfi02Config, u64), PFlashConfigError> {
    match common_check(c.sector_len, c.num_blocks) {
        Err(e) => Err(e),
        Ok(_) => if c.width == 0 || c.width > 4 || !pow2_u8(c.width) {
            Err(PFlashConfigError::Width)
        } else if c.sector_len * c.num_blocks > u64::MAX {
            Err(PFlashConfigError::Overflow)
        } else {
            Ok(
                (
                    PFlashCfi02Config {
                        unlock_addr0: c.unlock_addr0 & 0x07ff,
                        unlock_addr1: c.unlock_addr1 & 0x07ff,
                        ..c
                    },
                    (c.sector_len * c.num_blocks) as u64,
                ),
            )
        },
    }
}

/// Check a CFI 0002 configuration; give its accepted form and the chip
/// length.
pub fn validate_cfi02(c: PFlashCfi02Config) -> (r: Result<(PFlashCfi02Config, u64), PFlashConfigError>)
    ensures
        r == cfi02_check(c),
{
    validate_common(c.sector_len, c.num_blocks)?;
    if c.width == 0 || c.width > 4 || !is_power_of_two(c.width) {
        return Err(PFlashConfigError::Width);
    }
    let mut out = c;
    out.unlock_addr0 = c.unlock_addr0 & 0x07ff;
    out.unlock_addr1 = c.unlock_addr1 & 0x07ff;
    match c.sector_len.checked_mul(c.num_blocks as u64) {
        Some(len) => Ok((out, len)),
        None => Err(PFlashConfigError::Overflow),
    }
}

/// The number of trailing zero bits of `v` (64 for zero).
pub open spec fn tz(v: u64) -> nat
    decreases v,
{
    if v == 0 {
        64
    } else if v % 2 == 1 {
        0
    } else {
        1 + tz(v / 2)
    }
}

/// The number of trailing zero bits of `v` (64 for zero).
pub fn trailing_log2_u64(v: u64) -> (r: u8)
    ensures
        r == tz(v),
{
    if v == 0 {
        return 64;
    }
    let mut x = v;
    let mut n: u8 = 0;
    proof {
        lemma_two_pow_64();
        lemma_tz_lt(v, 64);
    }
    while x % 2 == 0
        invariant
            x != 0,
            n < 64,
            tz(v) < 64,
            n + tz(x) == tz(v),
        decreases x,
    {
        x = x / 2;
        n = n + 1;
    }
    n
}

/// `2^k`.
pub open spec fn two_pow(k: nat) -> int
    decreases k,
{
    if k == 0 {
        1
    } else {
        2 * two_pow((k - 1) as nat)
    }
}

proof fn lemma_tz_lt(v: u64, k: nat)
    requires
        v != 0,
        v < two_pow(k),
    ensures
        tz(v) < k,
    decreases k,
{
    if k == 0 {
    } else if v % 2 == 1 {
    } else {
        lemma_tz_lt(v / 2, (k - 1) as nat);
    }
}

proof fn lemma_two_pow_64()
    ensures
        two_pow(64) == 0x1_0000_0000_0000_0000,
{
    reveal_with_fuel(two_pow, 65);
}

/// The number of trailing zero bits of `v` (8 for zero).
pub fn trailing_log2(v: u8) -> (r: u32)
    ensures
        v == 0 ==> r == 8,
        v != 0 ==> r == tz(v as u64),
{
    if v == 0 {
        8
    } else {
        trailing_log2_u64(v as u64) as u32
    }
}

/// The bytes of one erase block of one device.
pub open spec fn cfi01_sector_per_device(c: PFlashCfi01Config) -> int {
    let num_devices: int = if c.device_width == 0 { 1 } else { (c.bank_width / c.device_width) as int };
    c.sector_len as int / num_devices
}

/// The CFI 0001 query table.
pub open spec fn cfi01_table_spec(c: PFlashCfi01Config) -> Seq<u8> {
    let num_devices: int = if c.device_width == 0 { 1 } else { (c.bank_width / c.device_width) as int };
    let blocks = c.num_blocks as int;
    let per = c.sector_len as int / num_devices;
    let device_len = (per * blocks) as u64;
    let bm1: int = if blocks > 0 { blocks - 1 } else { 0 };
    Seq::new(
        CFI01_TABLE_LEN as nat,
        |i: int|
            if i == 0x10 { 0x51u8 }
            else if i == 0x11 { 0x52u8 }
            else if i == 0x12 { 0x59u8 }
            else if i == 0x13 { 0x01u8 }
            else if i == 0x15 { 0x31u8 }
            else if i == 0x1b { 0x45u8 }
            else if i == 0x1c { 0x55u8 }
            else if i == 0x1f { 0x07u8 }
            else if i == 0x20 { 0x07u8 }
            else if i == 0x21 { 0x0au8 }
            else if i == 0x23 || i == 0x24 || i == 0x25 { 0x04u8 }
            else if i == 0x27 { tz(device_len) as u8 }
            else if i == 0x28 { 0x02u8 }
            else if i == 0x2a { if c.bank_width == 1 { 0x08u8 } else { 0x0bu8 } }
            else if i == 0x2c { 0x01u8 }
            else if i == 0x2d { (bm1 % 256) as u8 }
            else if i == 0x2e { ((bm1 / 256) % 256) as u8 }
            else if i == 0x2f { ((per / 256) % 256) as u8 }
            else if i == 0x30 { ((per / 65536) % 256) as u8 }
            else if i == 0x31 { 0x50u8 }
            else if i == 0x32 { 0x52u8 }
            else if i == 0x33 { 0x49u8 }
            else if i == 0x34 { 0x31u8 }
            else if i == 0x35 { 0x30u8 }
            else { 0u8 },
    )
}

/// Build the CFI 0001 query table of a valid configuration.
pub fn cfi01_table(c: &PFlashCfi01Config) -> (r: [u8; CFI01_TABLE_LEN])
    requires
        cfi01_check(*c) is Ok,
        cfi01_sector_per_device(*c) * c.num_blocks <= u64::MAX,
    ensures
        r@ == cfi01_table_spec(*c),
{
    let mut t = [0u8; CFI01_TABLE_LEN];
    let num_devices: u64 = if c.device_width == 0 {
        1
    } else {
        (c.bank_width / c.device_width) as u64
    };
    let blocks = c.num_blocks as u64;
    let per = c.sector_len / num_devices;
    let device_len = per * blocks;
    t[0x10] = 0x51;
    t[0x11] = 0x52;
    t[0x12] = 0x59;
    t[0x13] = 0x01;
    t[0x15] = 0x31;
    t[0x1b] = 0x45;
    t[0x1c] = 0x55;
    t[0x1f] = 0x07;
    t[0x20] = 0x07;
    t[0x21] = 0x0a;
    t[0x23] = 0x04;
    t[0x24] = 0x04;
    t[0x25] = 0x04;
    t[0x27] = trailing_log2_u64(device_len);
    t[0x28] = 0x02;
    t[0x2a] = if c.bank_width == 1 {
        0x08
    } else {
        0x0b
    };
    t[0x2c] = 0x01;
    let bm1 = blocks - 1;
    t[0x2d] = (bm1 % 256) as u8;
    t[0x2e] = ((bm1 / 256) % 256) as u8;
    t[0x2f] = ((per / 256) % 256) as u8;
    t[0x30] = ((per / 65536) % 256) as u8;
    t[0x31] = 0x50;
    t[0x32] = 0x52;
    t[0x33] = 0x49;
    t[0x34] = 0x31;
    t[0x35] = 0x30;
    proof {
        assert(t@ =~= cfi01_table_spec(*c));
    }
    t
}

/// The size of the CFI 0001 write buffer: 256 bytes per device on an
/// 8-bit bank, 2 KiB per device otherwise.
pub open spec fn cfi01_writeblock_spec(c: PFlashCfi01Config) -> int {
    let num_devices: int = if c.device_width == 0 { 1 } else { (c.bank_width / c.device_width) as int };
    (if c.bank_width == 1 { 256int } else { 2048int }) * num_devices
}

/// The size of the CFI 0001 write buffer.
pub fn cfi01_writeblock_size(c: &PFlashCfi01Config) -> (r: u64)
    requires
        cfi01_check(*c) is Ok,
    ensures
        r == cfi01_writeblock_spec(*c),
{
    let num_devices: u64 = if c.device_width == 0 {
        1
    } else {
        (c.bank_width / c.device_width) as u64
    };
    let base: u64 = if c.bank_width == 1 {
        256
    } else {
        2048
    };
    base * num_devices
}

/// The CFI 0002 query table of a chip of `chip_len` bytes.
pub open spec fn cfi02_table_spec(c: PFlashCfi02Config, chip_len: u64) -> Seq<u8> {
    let blocks = c.num_blocks as int;
    let bm1: int = if blocks > 0 { blocks - 1 } else { 0 };
    Seq::new(
        CFI02_TABLE_LEN as nat,
        |i: int|
            if i == 0x10 { 0x51u8 }
            else if i == 0x11 { 0x52u8 }
            else if i == 0x12 { 0x59u8 }
            else if i == 0x13 { 0x02u8 }
            else if i == 0x15 { 0x40u8 }
            else if i == 0x1b { 0x27u8 }
            else if i == 0x1c { 0x36u8 }
            else if i == 0x1f { 0x07u8 }
            else if i == 0x21 { 0x09u8 }
            else if i == 0x22 { 0x0cu8 }
            else if i == 0x23 { 0x01u8 }
            else if i == 0x25 { 0x0au8 }
            else if i == 0x26 { 0x0du8 }
            else if i == 0x27 { tz(chip_len) as u8 }
            else if i == 0x28 { 0x02u8 }
            else if i == 0x2c { 0x01u8 }
            else if i == 0x2d { (bm1 % 256) as u8 }
            else if i == 0x2e { ((bm1 / 256) % 256) as u8 }
            else if i == 0x2f { ((c.sector_len / 256) % 256) as u8 }
            else if i == 0x30 { ((c.sector_len / 65536) % 256) as u8 }
            else if i == 0x40 { 0x50u8 }
            else if i == 0x41 { 0x52u8 }
            else if i == 0x42 { 0x49u8 }
            else if i == 0x43 { 0x31u8 }
            else if i == 0x44 { 0x30u8 }
            else if i == 0x46 { 0x02u8 }
            else { 0u8 },
    )
}

/// Build the CFI 0002 query table.
pub fn cfi02_table(c: &PFlashCfi02Config, chip_len: u64) -> (r: [u8; CFI02_TABLE_LEN])
    ensures
        r@ == cfi02_table_spec(*c, chip_len),
{
    let mut t = [0u8; CFI02_TABLE_LEN];
    t[0x10] = 0x51;
    t[0x11] = 0x52;
    t[0x12] = 0x59;
    t[0x13] = 0x02;
    t[0x15] = 0x40;
    t[0x1b] = 0x27;
    t[0x1c] = 0x36;
    t[0x1f] = 0x07;
    t[0x21] = 0x09;
    t[0x22] = 0x0c;
    t[0x23] = 0x01;
    t[0x25] = 0x0a;
    t[0x26] = 0x0d;
    t[0x27] = trailing_log2_u64(chip_len);
    t[0x28] = 0x02;
    t[0x2c] = 0x01;
    let bm1: u64 = if c.num_blocks > 0 {
        c.num_blocks as u64 - 1
    } else {
        0
    };
    t[0x2d] = (bm1 % 256) as u8;
    t[0x2e] = ((bm1 / 256) % 256) as u8;
    t[0x2f] = ((c.sector_len / 256) % 256) as u8;
    t[0x30] = ((c.sector_len / 65536) % 256) as u8;
    t[0x40] = 0x50;
    t[0x41] = 0x52;
    t[0x42] = 0x49;
    t[0x43] = 0x31;
    t[0x44] = 0x30;
    t[0x46] = 0x02;
    proof {
        assert(t@ =~= cfi02_table_spec(*c, chip_len));
    }
    t
}

/// The little-endian (or big-endian) value of `bytes`.
pub open spec fn bytes_value(bytes: Seq<u8>, big_endian: bool) -> nat
    decreases bytes.len(),
{
    if bytes.len() == 0 {
        0
    } else if big_endian {
        bytes_value(bytes.drop_last(), true) * 256 + bytes.last() as nat
    } else {
        bytes[0] as nat + 256 * bytes_value(bytes.drop_first(), false)
    }
}

/// Assemble `bytes` into a value in the given byte order.
pub fn bytes_to_value(bytes: &[u8], big_endian: bool) -> (r: u64)
    requires
        bytes@.len() <= 8,
    ensures
        r == bytes_value(bytes@, big_endian),
{
    let n = bytes.len();
    if big_endian {
        let mut out: u64 = 0;
        let mut i: usize = 0;
        while i < n
            invariant
                n == bytes@.len(),
                n <= 8,
                i <= n,
                out == bytes_value(bytes@.take(i as int), true),
                out < pow256(i as nat),
            decreases n - i,
        {
            proof {
                assert(bytes@.take((i + 1) as int).drop_last() =~= bytes@.take(i as int));
                lemma_pow256_step(i as nat);
            }
            out = out * 256 + bytes[i] as u64;
            i = i + 1;
        }
        proof {
            assert(bytes@.take(n as int) =~= bytes@);
        }
        out
    } else {
        let mut out: u64 = 0;
        let mut i: usize = n;
        while i > 0
            invariant
                n == bytes@.len(),
                n <= 8,
                i <= n,
                out == bytes_value(bytes@.skip(i as int), false),
                out < pow256((n - i) as nat),
            decreases i,
        {
            proof {
                assert(bytes@.skip((i - 1) as int).drop_first() =~= bytes@.skip(i as int));
                lemma_pow256_step((n - i) as nat);
            }
            out = bytes[i - 1] as u64 + 256 * out;
            i = i - 1;
        }
        proof {
            assert(bytes@.skip(0) =~= bytes@);
        }
        out
    }
}

/// `256^n`.
pub open spec fn pow256(n: nat) -> nat
    decreases n,
{
    if n == 0 {
        1
    } else {
        256 * pow256((n - 1) as nat)
    }
}

proof fn lemma_pow256_step(n: nat)
    requires
        n < 8,
    ensures
        256 * pow256(n) <= 0x1_0000_0000_0000_0000,
        pow256(n + 1) == 256 * pow256(n),
{
    reveal_with_fuel(pow256, 9);
    if n == 0 {
    } else if n == 1 {
    } else if n == 2 {
    } else if n == 3 {
    } else if n == 4 {
    } else if n == 5 {
    } else if n == 6 {
    } else {
    }
}

/// `value` cut to its low `size` bytes.
pub open spec fn masked(value: u64, size: u32) -> int {
    if size >= 8 {
        value as int
    } else {
        value as int % pow256(size as nat) as int
    }
}

/// Keep the low `size` bytes of `value`.
pub fn mask_width(value: u64, size: u32) -> (r: u64)
    ensures
        r == masked(value, size),
{
    if size >= 8 {
        value
    } else {
        proof {
            lemma_pow256_small(size as nat);
        }
        let m = pow256_exec(size);
        value % m
    }
}

proof fn lemma_pow256_small(n: nat)
    requires
        n < 8,
    ensures
        0 < pow256(n) <= 0x100_0000_0000_0000,
    decreases n,
{
    reveal_with_fuel(pow256, 9);
    if n > 0 {
        lemma_pow256_small((n - 1) as nat);
    }
}

fn pow256_exec(n: u32) -> (r: u64)
    requires
        n < 8,
    ensures
        r == pow256(n as nat),
{
    let mut r: u64 = 1;
    let mut i: u32 = 0;
    while i < n
        invariant
            i <= n,
            n < 8,
            r == pow256(i as nat),
        decreases n - i,
    {
        proof {
            lemma_pow256_small((i + 1) as nat);
            lemma_pow256_step(i as nat);
        }
        r = r * 256;
        i = i + 1;
    }
    r
}


/// Byte `k` (from the least significant) of `v`.
pub open spec fn byte_of(v: int, k: int) -> u8 {
    ((v / pow256(k as nat) as int) % 256) as u8
}

/// The `size` bytes of `value` in the given byte order.
pub open spec fn value_bytes(value: u64, size: u32, big_endian: bool) -> Seq<u8> {
    Seq::new(size as nat, |i: int| byte_of(value as int, if big_endian { size - 1 - i } else { i }))
}

/// Split `value` into `size` bytes in the given byte order.
pub fn value_to_bytes(value: u64, size: u32, big_endian: bool) -> (r: Vec<u8>)
    requires
        size <= 8,
    ensures
        r@ == value_bytes(value, size, big_endian),
{
    let mut out: Vec<u8> = Vec::new();
    let mut i: u32 = 0;
    while i < size
        invariant
            i <= size <= 8,
            out@.len() == i,
            forall|j: int| 0 <= j < i ==> out@[j] == value_bytes(value, size, big_endian)[j],
        decreases size - i,
    {
        let k = if big_endian {
            size - 1 - i
        } else {
            i
        };
        proof {
            lemma_pow256_small(k as nat);
        }
        let p = pow256_exec(k);
        out.push(((value / p) % 256) as u8);
        i = i + 1;
    }
    proof {
        assert(out@ =~= value_bytes(value, size, big_endian));
    }
    out
}

/// The status byte as a `size`-byte read sees it: once (and again at
/// bit 16 for reads wider than two bytes) without a device width, else
/// at the first byte of every device.
pub open spec fn replicated_status(status: u8, size: u32, device_width: u8) -> int {
    if device_width == 0 {
        masked(((status as int) + (if size > 2 { status as int * 65536 } else { 0 })) as u64, size)
    } else {
        bytes_value(Seq::new(size as nat, |i: int| if i % (device_width as int) == 0 { status } else { 0u8 }), false) as int
    }
}

/// The status register replicated over the access width.
pub fn replicate_status(status: u8, size: u32, device_width: u8) -> (r: u64)
    requires
        size <= 8,
    ensures
        r == replicated_status(status, size, device_width),
{
    if device_width == 0 {
        let v: u64 = status as u64 + if size > 2 {
            status as u64 * 65536
        } else {
            0
        };
        return mask_width(v, size);
    }
    let mut bytes: Vec<u8> = Vec::new();
    let mut i: u32 = 0;
    while i < size
        invariant
            i <= size <= 8,
            device_width != 0,
            bytes@.len() == i,
            forall|j: int| 0 <= j < i ==> bytes@[j] == (if j % (device_width as int) == 0 { status } else { 0u8 }),
        decreases size - i,
    {
        bytes.push(if i % (device_width as u32) == 0 {
            status
        } else {
            0
        });
        i = i + 1;
    }
    proof {
        assert(bytes@ =~= Seq::new(size as nat, |i: int| if i % (device_width as int) == 0 { status } else { 0u8 }));
    }
    bytes_to_value(bytes.as_slice(), false)
}

/// The CFI 0001 command register states and their fields.
#[derive(Debug, Clone, Copy, PartialEq, Eq, Structural)]
pub struct Cfi01State {
    pub wcycle: u8,
    pub cmd: u8,
    pub status: u8,
    pub counter: u64,
}

/// Back to read-array mode.
pub open spec fn read_array(s: Cfi01State) -> Cfi01State {
    Cfi01State { wcycle: 0, cmd: 0, counter: 0, ..s }
}

/// The commands whose reads return the status register.
pub open spec fn status_cmd(c: u8) -> bool {
    c == 0x10 || c == 0x20 || c == 0x28 || c == 0x40 || c == 0x50 || c == 0x60 || c == 0x70 || c == 0xe8
}

/// A write buffer being filled: its base address and bytes.
pub struct Cfi01Buffer {
    pub base: u64,
    pub bytes: Vec<u8>,
}

/// The write buffer as plain values.
pub open spec fn buffer_view(b: Option<Cfi01Buffer>) -> Option<(u64, Seq<u8>)> {
    match b {
        Some(x) => Some((x.base, x.bytes@)),
        None => None,
    }
}

/// The first write cycle: decode the command byte `c`.
pub open spec fn cfi01_cycle0(s: Cfi01State, buf: Option<(u64, Seq<u8>)>, c: u8) -> (Cfi01State, Option<(u64, Seq<u8>)>) {
    if c == 0x00 || c == 0xff || c == 0xf0 {
        (read_array(s), buf)
    } else if c == 0x10 || c == 0x40 || c == 0x60 || c == 0x98 {
        (Cfi01State { wcycle: 1, cmd: c, ..s }, buf)
    } else if c == 0xe8 {
        (Cfi01State { wcycle: 1, cmd: c, status: s.status | STATUS_READY, counter: 0 }, None)
    } else if c == 0x20 {
        (Cfi01State { wcycle: 1, cmd: c, status: s.status | STATUS_READY, ..s }, buf)
    } else if c == 0x50 {
        (read_array(Cfi01State { status: STATUS_READY, ..s }), buf)
    } else if c == 0x70 || c == 0x90 {
        (Cfi01State { cmd: c, ..s }, buf)
    } else {
        (read_array(s), buf)
    }
}

/// One write of `value` (`size` bytes at `offset`) to a CFI 0001 flash
/// of configuration `cfg` whose erase value is `fill`: from command
/// state `s`, write buffer `buf` and contents `mem` to `s2`, `buf2`,
/// `mem2`, where `ok` is whether the flash operation the write starts
/// (program, erase, buffer fill or commit) succeeded.
pub open spec fn cfi01_step(
    cfg: PFlashCfi01Config,
    wbs: u64,
    fill: u8,
    s: Cfi01State,
    buf: Option<(u64, Seq<u8>)>,
    mem: Seq<u8>,
    offset: u64,
    size: u32,
    value: u64,
    ok: bool,
    s2: Cfi01State,
    buf2: Option<(u64, Seq<u8>)>,
    mem2: Seq<u8>,
) -> bool {
    let c = (value % 256) as u8;
    let ready = s.status | STATUS_READY;
    if s.wcycle == 0 {
        mem2 == mem && (s2, buf2) == cfi01_cycle0(s, buf, c)
    } else if s.wcycle == 1 {
        if s.cmd == 0x10 || s.cmd == 0x40 {
            &&& s2 == Cfi01State { wcycle: 0, status: if ok { ready } else { ready | STATUS_PROGRAM_ERROR }, ..s }
            &&& buf2 == buf
            &&& ok ==> mem2 == programmed(mem, offset as int, value_bytes(value, size, cfg.big_endian))
        } else if s.cmd == 0x20 || s.cmd == 0x28 {
            if c == 0xd0 {
                let base = offset - offset % cfg.sector_len;
                &&& s2 == Cfi01State { wcycle: 0, status: if ok { ready } else { ready | STATUS_ERASE_ERROR }, ..s }
                &&& buf2 == buf
                &&& ok ==> mem2 == erased(mem, base, cfg.sector_len as int, fill)
            } else {
                s2 == read_array(s) && buf2 == buf && mem2 == mem
            }
        } else if s.cmd == 0x60 {
            mem2 == mem && buf2 == buf && s2 == (if c == 0xd0 || c == 0x01 {
                Cfi01State { wcycle: 0, status: ready, ..s }
            } else {
                read_array(s)
            })
        } else if s.cmd == 0x98 {
            mem2 == mem && buf2 == buf && s2 == (if c == 0xff || c == 0xf0 { read_array(s) } else { s })
        } else if s.cmd == 0xe8 {
            mem2 == mem && buf2 == buf && s2 == Cfi01State { wcycle: 2, counter: masked(value, size) as u64, ..s }
        } else {
            mem2 == mem && buf2 == buf && s2 == read_array(s)
        }
    } else if s.wcycle == 2 {
        let base = offset - offset % wbs;
        let b0: Option<(u64, Seq<u8>)> = if buf is Some {
            buf
        } else if ok {
            Some((base as u64, mem.subrange(base, base + wbs)))
        } else {
            None
        };
        let data = value_bytes(value, size, cfg.big_endian);
        let fits = match b0 {
            Some(b) => offset >= b.0 && offset - b.0 + data.len() <= b.1.len(),
            None => false,
        };
        let st = if fits { ready } else { ready | STATUS_PROGRAM_ERROR };
        &&& mem2 == mem
        &&& (buf is None && ok ==> base + wbs <= mem.len())
        &&& buf2 == (match b0 {
            Some(b) => if fits {
                Some((b.0, programmed(b.1, offset - b.0, data)))
            } else {
                Some(b)
            },
            None => None,
        })
        &&& s2 == (if s.counter == 0 {
            Cfi01State { wcycle: 3, status: st, ..s }
        } else {
            Cfi01State { status: st, counter: (s.counter - 1) as u64, ..s }
        })
    } else if s.wcycle == 3 {
        if c == 0xd0 && s.status & STATUS_PROGRAM_ERROR == 0 {
            &&& buf2 is None
            &&& match buf {
                Some(b) => {
                    &&& s2 == Cfi01State { wcycle: 0, status: if ok { ready } else { ready | STATUS_PROGRAM_ERROR }, ..s }
                    &&& ok ==> mem2 == programmed(mem, b.0 as int, b.1)
                },
                None => s2 == Cfi01State { wcycle: 0, status: ready, ..s } && mem2 == mem,
            }
        } else {
            buf2 is None && mem2 == mem && s2 == read_array(s)
        }
    } else {
        mem2 == mem && buf2 == buf && s2 == read_array(s)
    }
}

/// A CFI 0001 (Intel command set) parallel flash.
pub struct PFlashCfi01<B: BlockBackend> {
    pub name: String,
    pub flash: FlashMedia<B>,
    pub config: PFlashCfi01Config,
    pub writeblock_size: u64,
    pub state: Cfi01State,
    pub buffer: Option<Cfi01Buffer>,
    pub cfi_table: [u8; CFI01_TABLE_LEN],
}

impl<B: BlockBackend> PFlashCfi01<B> {
    pub open spec fn wf(&self) -> bool {
        &&& cfi01_check(self.config) is Ok
        &&& self.writeblock_size == cfi01_writeblock_spec(self.config)
        &&& self.config.sector_len <= usize::MAX
        &&& self.cfi_table@ == cfi01_table_spec(self.config)
    }

    /// A flash on `flash` named "pflash-cfi01".
    pub fn new(flash: FlashMedia<B>, config: PFlashCfi01Config) -> (r: Result<Self, PFlashConfigError>)
        requires
            cfi01_sector_per_device(config) * config.num_blocks <= u64::MAX,
            config.sector_len <= usize::MAX,
        ensures
            r is Err <==> cfi01_check(config) is Err,
            r matches Err(e) ==> cfi01_check(config) == Err::<(), PFlashConfigError>(e),
            r matches Ok(d) ==> d.wf() && d.config == config && d.state == (Cfi01State {
                wcycle: 0,
                cmd: 0,
                status: STATUS_READY,
                counter: 0,
            }) && d.buffer is None && d.flash.inner() == flash.inner() && d.flash.locked() == config.read_only
                && d.flash.block() == flash.block() && d.flash.fill() == flash.fill(),
    {
        Self::new_named("pflash-cfi01", flash, config)
    }

    /// A flash on `flash` named `local_id`.
    pub fn new_named(local_id: &str, flash: FlashMedia<B>, config: PFlashCfi01Config) -> (r: Result<Self, PFlashConfigError>)
        requires
            cfi01_sector_per_device(config) * config.num_blocks <= u64::MAX,
            config.sector_len <= usize::MAX,
        ensures
            r is Err <==> cfi01_check(config) is Err,
            r matches Err(e) ==> cfi01_check(config) == Err::<(), PFlashConfigError>(e),
            r matches Ok(d) ==> d.wf() && d.config == config && d.state == (Cfi01State {
                wcycle: 0,
                cmd: 0,
                status: STATUS_READY,
                counter: 0,
            }) && d.buffer is None && d.flash.inner() == flash.inner() && d.flash.locked() == config.read_only
                && d.flash.block() == flash.block() && d.flash.fill() == flash.fill(),
    {
        validate_cfi01(&config)?;
        let cfi_table = cfi01_table(&config);
        let writeblock_size = cfi01_writeblock_size(&config);
        Ok(PFlashCfi01 {
            name: String::from_str(local_id),
            flash: flash.with_readonly(config.read_only),
            config,
            writeblock_size,
            state: Cfi01State { wcycle: 0, cmd: 0, status: STATUS_READY, counter: 0 },
            buffer: None,
            cfi_table,
        })
    }

    /// Back to read-array mode with a ready status and no write buffer.
    pub fn reset_runtime(&mut self)
        requires
            old(self).wf(),
        ensures
            final(self).wf(),
            final(self).state == (Cfi01State { wcycle: 0, cmd: 0, status: STATUS_READY, counter: 0 }),
            final(self).buffer is None,
            final(self).flash == old(self).flash && final(self).config == old(self).config,
    {
        self.state = Cfi01State { wcycle: 0, cmd: 0, status: STATUS_READY, counter: 0 };
        self.buffer = None;
    }

    fn read_data(&self, offset: u64, size: u32) -> (r: u64)
        requires
            1 <= size <= 8,
        ensures
            r == 0 || (offset + size <= self.flash.inner().contents().len() && r == bytes_value(
                self.flash.inner().contents().subrange(offset as int, offset + size),
                self.config.big_endian,
            )),
            offset + size > self.flash.inner().contents().len() ==> r == 0,
    {
        let mut bytes: Vec<u8> = vec![0u8; size as usize];
        match self.flash.read(offset, bytes.as_mut_slice()) {
            Ok(()) => bytes_to_value(bytes.as_slice(), self.config.big_endian),
            Err(_) => 0,
        }
    }

    /// A `size`-byte read at `offset`. Reads in array mode return the
    /// flash bytes (0 when they cannot be read), reads during a status
    /// command the status, and reads in ID or query mode the
    /// identification codes or CFI table, assembled bank by bank when
    /// the device width is set; an unknown command returns to array
    /// mode first.
    pub fn do_read(&mut self, offset: u64, size: u32) -> (r: u64)
        requires
            old(self).wf(),
            1 <= size <= 8 && (old(self).state.cmd == 0x90 || old(self).state.cmd == 0x98)
                && old(self).config.device_width != 0 ==> wide_read_ok(old(self).config, offset, size),
        ensures
            final(self).wf(),
            final(self).flash == old(self).flash && final(self).config == old(self).config,
            final(self).buffer == old(self).buffer,
            ({
                let s = old(self).state;
                let c = old(self).config;
                let mem = old(self).flash.inner().contents();
                let data_ok = r == 0 || (offset + size <= mem.len() && r == bytes_value(
                    mem.subrange(offset as int, offset + size),
                    c.big_endian,
                ));
                &&& (size == 0 || size > 8) ==> r == 0 && final(self).state == s
                &&& 1 <= size <= 8 && s.cmd == 0 ==> data_ok && final(self).state == s
                &&& 1 <= size <= 8 && status_cmd(s.cmd) ==> r == replicated_status(s.status, size, c.device_width)
                    && final(self).state == s
                &&& 1 <= size <= 8 && s.cmd == 0x90 && c.device_width == 0 ==> final(self).state == s && r
                    == masked(
                    id_word(c, offset),
                    size,
                )
                &&& 1 <= size <= 8 && s.cmd == 0x98 && c.device_width == 0 ==> final(self).state == s && r
                    == query_byte(old(self).cfi_table@, c, offset)
                &&& 1 <= size <= 8 && s.cmd == 0x90 && c.device_width != 0 ==> final(self).state == s && r
                    == combined(offset, size, c.bank_width as int, c.big_endian, |q: u64| id_bank(c, q))
                &&& 1 <= size <= 8 && s.cmd == 0x98 && c.device_width != 0 ==> final(self).state == s && r
                    == combined(offset, size, c.bank_width as int, c.big_endian, |q: u64| query_bank(c, old(self).cfi_table@, q))
                &&& 1 <= size <= 8 && !(s.cmd == 0 || status_cmd(s.cmd) || s.cmd == 0x90 || s.cmd == 0x98)
                    ==> data_ok && final(self).state == Cfi01State { wcycle: 0, cmd: 0, ..s }
            }),
    {
        if size == 0 || size > 8 {
            return 0;
        }
        let c = self.state.cmd;
        if c == 0x00 {
            self.read_data(offset, size)
        } else if c == 0x10 || c == 0x20 || c == 0x28 || c == 0x40 || c == 0x50 || c == 0x60 || c == 0x70
            || c == 0xe8 {
            replicate_status(self.state.status, size, self.config.device_width)
        } else if c == 0x90 {
            if self.config.device_width == 0 {
                mask_width(self.id_word(offset), size)
            } else {
                self.combine_bank_read(offset, size, false)
            }
        } else if c == 0x98 {
            if self.config.device_width == 0 {
                self.query_byte(offset)
            } else {
                self.combine_bank_read(offset, size, true)
            }
        } else {
            self.state.wcycle = 0;
            self.state.cmd = 0;
            self.read_data(offset, size)
        }
    }

    fn id_word(&self, offset: u64) -> (r: u64)
        ensures
            r == id_word(self.config, offset),
    {
        let boff = bank_offset(offset, self.config.bank_width);
        if boff == 0 {
            ((self.config.ident0 << 8u16) | self.config.ident1) as u64
        } else if boff == 1 {
            ((self.config.ident2 << 8u16) | self.config.ident3) as u64
        } else {
            0
        }
    }

    fn query_byte(&self, offset: u64) -> (r: u64)
        requires
            self.wf(),
        ensures
            r == query_byte(self.cfi_table@, self.config, offset),
    {
        let boff = bank_offset(offset, self.config.bank_width);
        if boff < CFI01_TABLE_LEN as u64 {
            self.cfi_table[boff as usize] as u64
        } else {
            0
        }
    }

    fn adjust_width_offset(&self, q: u64) -> (r: u64)
        requires
            self.wf(),
        ensures
            r == adjust_offset(self.config, q),
    {
        let c = &self.config;
        let a = if c.max_device_width >= c.device_width {
            c.max_device_width
        } else {
            c.device_width
        };
        let mw: u8 = if a >= 1 {
            a
        } else {
            1
        };
        let dw: u8 = if c.device_width >= 1 {
            c.device_width
        } else {
            1
        };
        proof {
            lemma_tz_pow2(c.bank_width);
            lemma_tz_pow2(mw);
            lemma_tz_pow2(dw);
        }
        let shift = trailing_log2(c.bank_width) + trailing_log2(mw) - trailing_log2(dw);
        q >> (shift as u64)
    }

    fn replicate_bank_value(&self, value: u64) -> (r: u64)
        requires
            self.wf(),
            dev_width(self.config) < self.config.bank_width ==> self.config.bank_width <= 8,
        ensures
            r == bank_value(self.config, value),
    {
        let dw: u8 = if self.config.device_width >= 1 {
            self.config.device_width
        } else {
            1
        };
        let bw = self.config.bank_width;
        if dw >= bw {
            return mask_width(value, bw as u32);
        }
        let unit = mask_width(value, dw as u32);
        let mut bytes: Vec<u8> = Vec::new();
        let mut j: u8 = 0;
        while j < bw
            invariant
                j <= bw <= 8,
                1 <= dw < bw,
                bytes@.len() == j,
                forall|i: int| 0 <= i < j ==> bytes@[i] == byte_of(unit as int, i % (dw as int)),
            decreases bw - j,
        {
            let k = (j % dw) as u32;
            assert(k < 8) by {
                assert(j % dw < dw);
            }
            proof {
                lemma_pow256_small(k as nat);
            }
            bytes.push(((unit / pow256_exec(k)) % 256) as u8);
            j = j + 1;
        }
        proof {
            assert(bytes@ =~= Seq::new(bw as nat, |i: int| byte_of(unit as int, i % (dw as int))));
        }
        bytes_to_value(bytes.as_slice(), false)
    }

    fn id_bank_value(&self, q: u64) -> (r: u64)
        requires
            self.wf(),
            dev_width(self.config) < self.config.bank_width ==> self.config.bank_width <= 8,
        ensures
            r == id_bank(self.config, q),
    {
        let o = self.adjust_width_offset(q) % 256;
        let v: u64 = if o == 0 {
            self.config.ident0 as u64
        } else if o == 1 {
            self.config.ident1 as u64
        } else {
            0
        };
        self.replicate_bank_value(v)
    }

    fn query_bank_value(&self, q: u64) -> (r: u64)
        requires
            self.wf(),
            (self.config.device_width != max_width(self.config) && self.config.device_width == 1
                && self.config.bank_width <= 4) ==> max_width(self.config) <= 8,
            dev_width(self.config) < self.config.bank_width ==> self.config.bank_width <= 8,
        ensures
            r == query_bank(self.config, self.cfi_table@, q),
    {
        let boff = self.adjust_width_offset(q);
        let byte: u8 = if boff < CFI01_TABLE_LEN as u64 {
            self.cfi_table[boff as usize]
        } else {
            0
        };
        let c = &self.config;
        let a = if c.max_device_width >= c.device_width {
            c.max_device_width
        } else {
            c.device_width
        };
        let mw: u8 = if a >= 1 {
            a
        } else {
            1
        };
        if c.device_width != mw {
            if c.device_width != 1 || c.bank_width > 4 {
                return 0;
            }
            let mut bytes: Vec<u8> = Vec::new();
            let mut j: u8 = 0;
            while j < mw
                invariant
                    j <= mw <= 8,
                    bytes@.len() == j,
                    forall|i: int| 0 <= i < j ==> bytes@[i] == byte,
                decreases mw - j,
            {
                bytes.push(byte);
                j = j + 1;
            }
            proof {
                assert(bytes@ =~= Seq::new(mw as nat, |j: int| byte));
            }
            let v = bytes_to_value(bytes.as_slice(), false);
            self.replicate_bank_value(v)
        } else {
            self.replicate_bank_value(byte as u64)
        }
    }

    /// Assemble a `size`-byte ID (`query == false`) or query read from
    /// bank reads.
    fn combine_bank_read(&self, offset: u64, size: u32, query: bool) -> (r: u64)
        requires
            self.wf(),
            1 <= size <= 8,
            self.config.device_width != 0,
            wide_read_ok(self.config, offset, size),
        ensures
            !query ==> r == combined(offset, size, self.config.bank_width as int, self.config.big_endian, |q: u64| id_bank(self.config, q)),
            query ==> r == combined(offset, size, self.config.bank_width as int, self.config.big_endian, |q: u64| query_bank(self.config, self.cfi_table@, q)),
    {
        let ghost f = |q: u64| if query { query_bank(self.config, self.cfi_table@, q) } else { id_bank(self.config, q) };
        let bw = self.config.bank_width as u32;
        let be = self.config.big_endian;
        let mut out: Vec<u8> = vec![0u8; size as usize];
        let mut index: u32 = 0;
        let ghost target = combined_bytes(offset, size, bw as int, be, f);
        while index < size
            invariant
                1 <= size <= 8,
                bw >= 1,
                bw == self.config.bank_width,
                be == self.config.big_endian,
                index % bw == 0,
                index <= size + bw,
                out@.len() == size,
                self.wf(),
                wide_read_ok(self.config, offset, size),
                self.config.device_width != 0,
                f == (|q: u64| if query { query_bank(self.config, self.cfi_table@, q) } else { id_bank(self.config, q) }),
                target == combined_bytes(offset, size, bw as int, be, f),
                forall|j: int| 0 <= j < size ==> {
                    let m = if be { size - 1 - j } else { j };
                    (m < index ==> #[trigger] out@[j] == target[j])
                },
            decreases size + bw - index,
        {
            proof {
                assert(index * bw <= ((size - 1) / (bw as int)) * (bw as int) * (bw as int)) by (nonlinear_arith)
                    requires
                        index < size,
                        index % bw == 0,
                        bw >= 1,
                ;
            }
            let q = offset + (index as u64) * (bw as u64);
            let v = if query {
                self.query_bank_value(q)
            } else {
                self.id_bank_value(q)
            };
            assert(v as int == f(chunk_offset(offset, index as int, bw as int)));
            let chunk = if bw <= size - index {
                bw
            } else {
                size - index
            };
            let w = mask_width(v, chunk);
            let mut k: u32 = 0;
            while k < chunk
                invariant
                    1 <= size <= 8,
                    index < size,
                    chunk <= size - index,
                    chunk >= 1,
                    k <= chunk,
                    out@.len() == size,
                    target == combined_bytes(offset, size, bw as int, be, f),
                    forall|j: int| 0 <= j < size ==> {
                        let m = if be { size - 1 - j } else { j };
                        (m < index ==> #[trigger] out@[j] == target[j])
                    },
                    forall|j: int| 0 <= j < size ==> {
                        let m = if be { size - 1 - j } else { j };
                        (index <= m < index + k ==> #[trigger] out@[j] == byte_of(w as int, if be { chunk - 1 - (m - index) } else { m - index }))
                    },
                decreases chunk - k,
            {
                let pos: u32 = if be {
                    size - 1 - (index + k)
                } else {
                    index + k
                };
                let kk = if be {
                    chunk - 1 - k
                } else {
                    k
                };
                proof {
                    lemma_pow256_small(kk as nat);
                }
                let b = ((w / pow256_exec(kk)) % 256) as u8;
                out.set(pos as usize, b);
                k = k + 1;
            }
            proof {
                assert forall|j: int| 0 <= j < size implies {
                    let m = if be { size - 1 - j } else { j };
                    (m < index + chunk ==> #[trigger] out@[j] == target[j])
                } by {
                    let m = if be { size - 1 - j } else { j };
                    if index <= m < index + chunk {
                        assert((m / (bw as int)) * (bw as int) == index) by (nonlinear_arith)
                            requires
                                index <= m < index + chunk,
                                chunk <= bw,
                                index % bw == 0,
                                bw >= 1,
                        ;
                        assert(out@[j] == byte_of(w as int, if be { chunk - 1 - (m - index) } else { m - index }));
                        assert(w == masked(f(chunk_offset(offset, index as int, bw as int)) as u64, chunk));
                        let idx = (m / (bw as int)) * (bw as int);
                        let ct = if (bw as int) <= size - idx { bw as int } else { size - idx };
                        assert(ct == chunk);
                        let kt = if be { ct - 1 - (m - idx) } else { m - idx };
                        assert(target[j] == byte_of(masked(f(chunk_offset(offset, idx, bw as int)) as u64, ct as u32), kt));
                        assert(out@[j] == target[j]);
                    } else if m < index {
                        assert(out@[j] == target[j]);
                    }
                }
            }
            assert(((index + bw) as int) % (bw as int) == 0) by (nonlinear_arith)
                requires
                    index % bw == 0,
                    bw >= 1,
            ;
            index = index + bw;
        }
        proof {
            assert(out@ =~= target);
            if query {
                assert(f =~= (|q: u64| query_bank(self.config, self.cfi_table@, q)));
            } else {
                assert(f =~= (|q: u64| id_bank(self.config, q)));
            }
        }
        bytes_to_value(out.as_slice(), false)
    }

    /// A `size`-byte write of `value` at `offset`: one cycle of the
    /// command state machine (see [`cfi01_step`]).
    pub fn do_write(&mut self, offset: u64, size: u32, value: u64)
        requires
            old(self).wf(),
        ensures
            final(self).wf(),
            final(self).config == old(self).config && final(self).cfi_table == old(self).cfi_table,
            final(self).writeblock_size == old(self).writeblock_size,
            final(self).flash.block() == old(self).flash.block(),
            final(self).flash.fill() == old(self).flash.fill(),
            final(self).flash.locked() == old(self).flash.locked(),
            (size == 0 || size > 8) ==> final(self).state == old(self).state && final(self).flash == old(
                self,
            ).flash && buffer_view(final(self).buffer) == buffer_view(old(self).buffer),
            1 <= size <= 8 ==> exists|ok: bool|
                cfi01_step(
                    old(self).config,
                    old(self).writeblock_size,
                    old(self).flash.fill(),
                    old(self).state,
                    buffer_view(old(self).buffer),
                    old(self).flash.inner().contents(),
                    offset,
                    size,
                    value,
                    ok,
                    final(self).state,
                    buffer_view(final(self).buffer),
                    final(self).flash.inner().contents(),
                ),
    {
        if size == 0 || size > 8 {
            return;
        }
        let c = (value % 256) as u8;
        let s = self.state;
        let ready = s.status | STATUS_READY;
        let ghost buf0 = buffer_view(self.buffer);
        let ghost mem0 = self.flash.inner().contents();
        let ghost fill = self.flash.fill();
        let ghost mut ok: bool = true;
        if s.wcycle == 0 {
            if c == 0x00 || c == 0xff || c == 0xf0 {
                self.state = Cfi01State { wcycle: 0, cmd: 0, counter: 0, ..s };
            } else if c == 0x10 || c == 0x40 || c == 0x60 || c == 0x98 {
                self.state = Cfi01State { wcycle: 1, cmd: c, ..s };
            } else if c == 0xe8 {
                self.state = Cfi01State { wcycle: 1, cmd: c, status: ready, counter: 0 };
                self.buffer = None;
            } else if c == 0x20 {
                self.state = Cfi01State { wcycle: 1, cmd: c, status: ready, ..s };
            } else if c == 0x50 {
                self.state = Cfi01State { wcycle: 0, cmd: 0, counter: 0, status: STATUS_READY };
            } else if c == 0x70 || c == 0x90 {
                self.state = Cfi01State { cmd: c, ..s };
            } else {
                self.state = Cfi01State { wcycle: 0, cmd: 0, counter: 0, ..s };
            }
        } else if s.wcycle == 1 {
            if s.cmd == 0x10 || s.cmd == 0x40 {
                let bytes = value_to_bytes(value, size, self.config.big_endian);
                let res = self.flash.program(offset, bytes.as_slice());
                proof {
                    ok = res is Ok;
                }
                let st = if res.is_ok() {
                    ready
                } else {
                    ready | STATUS_PROGRAM_ERROR
                };
                self.state = Cfi01State { wcycle: 0, status: st, ..s };
            } else if s.cmd == 0x20 || s.cmd == 0x28 {
                if c == 0xd0 {
                    let sl = self.config.sector_len;
                    assert(offset % sl <= offset) by (nonlinear_arith)
                        requires
                            sl > 0,
                    ;
                    let base = offset - offset % sl;
                    let res = self.flash.erase(base, sl);
                    proof {
                        ok = res is Ok;
                    }
                    let st = if res.is_ok() {
                        ready
                    } else {
                        ready | STATUS_ERASE_ERROR
                    };
                    self.state = Cfi01State { wcycle: 0, status: st, ..s };
                } else {
                    self.state = Cfi01State { wcycle: 0, cmd: 0, counter: 0, ..s };
                }
            } else if s.cmd == 0x60 {
                if c == 0xd0 || c == 0x01 {
                    self.state = Cfi01State { wcycle: 0, status: ready, ..s };
                } else {
                    self.state = Cfi01State { wcycle: 0, cmd: 0, counter: 0, ..s };
                }
            } else if s.cmd == 0x98 {
                if c == 0xff || c == 0xf0 {
                    self.state = Cfi01State { wcycle: 0, cmd: 0, counter: 0, ..s };
                }
            } else if s.cmd == 0xe8 {
                self.state = Cfi01State { wcycle: 2, counter: mask_width(value, size), ..s };
            } else {
                self.state = Cfi01State { wcycle: 0, cmd: 0, counter: 0, ..s };
            }
        } else if s.wcycle == 2 {
            let g = self.buffer_stage(offset, size, value);
            proof {
                ok = g@;
            }
        } else if s.wcycle == 3 {
            if c == 0xd0 && s.status & STATUS_PROGRAM_ERROR == 0 {
                let taken = self.buffer.take();
                match taken {
                    Some(b) => {
                        let res = self.flash.program(b.base, b.bytes.as_slice());
                        proof {
                            ok = res is Ok;
                        }
                        let st = if res.is_ok() {
                            ready
                        } else {
                            ready | STATUS_PROGRAM_ERROR
                        };
                        self.state = Cfi01State { wcycle: 0, status: st, ..s };
                    },
                    None => {
                        self.state = Cfi01State { wcycle: 0, status: ready, ..s };
                    },
                }
            } else {
                self.buffer = None;
                self.state = Cfi01State { wcycle: 0, cmd: 0, counter: 0, ..s };
            }
        } else {
            self.state = Cfi01State { wcycle: 0, cmd: 0, counter: 0, ..s };
        }
        proof {
            assert(cfi01_step(
                old(self).config,
                old(self).writeblock_size,
                fill,
                s,
                buf0,
                mem0,
                offset,
                size,
                value,
                ok,
                self.state,
                buffer_view(self.buffer),
                self.flash.inner().contents(),
            ));
        }
    }

    /// The buffer-filling cycle of a buffered program; gives whether the
    /// buffer could be read from the flash (true when it already existed).
    fn buffer_stage(&mut self, offset: u64, size: u32, value: u64) -> (ok: Ghost<bool>)
        requires
            old(self).wf(),
            old(self).state.wcycle == 2,
            1 <= size <= 8,
        ensures
            final(self).wf(),
            final(self).config == old(self).config && final(self).cfi_table == old(self).cfi_table,
            final(self).writeblock_size == old(self).writeblock_size,
            final(self).flash == old(self).flash,
            cfi01_step(
                old(self).config,
                old(self).writeblock_size,
                old(self).flash.fill(),
                old(self).state,
                buffer_view(old(self).buffer),
                old(self).flash.inner().contents(),
                offset,
                size,
                value,
                ok@,
                final(self).state,
                buffer_view(final(self).buffer),
                final(self).flash.inner().contents(),
            ),
    {
        let s = self.state;
        let ready = s.status | STATUS_READY;
        let wbs = self.writeblock_size;
        let mut read_ok = true;
        let ghost gbase = offset - offset % wbs;
        let ghost mem = self.flash.inner().contents();
        if self.buffer.is_none() {
            assert(offset % wbs <= offset) by (nonlinear_arith)
                requires
                    wbs > 0,
            ;
            let base = offset - offset % wbs;
            let mut bytes: Vec<u8> = vec![0u8; wbs as usize];
            match self.flash.read(base, bytes.as_mut_slice()) {
                Ok(()) => {
                    self.buffer = Some(Cfi01Buffer { base, bytes });
                },
                Err(_) => {
                    read_ok = false;
                },
            }
        }
        proof {
            let expect: Option<(u64, Seq<u8>)> = if buffer_view(old(self).buffer) is Some {
                buffer_view(old(self).buffer)
            } else if read_ok {
                Some((gbase as u64, mem.subrange(gbase, gbase + wbs)))
            } else {
                None
            };
            assert(buffer_view(self.buffer) == expect);
            assert(buffer_view(old(self).buffer) is None && read_ok ==> gbase + wbs <= mem.len());
        }
        let data = value_to_bytes(value, size, self.config.big_endian);
        let ghost b0 = buffer_view(self.buffer);
        let mut fits = false;
        match &mut self.buffer {
            Some(b) => {
                let n = b.bytes.len();
                if offset >= b.base && offset - b.base <= n as u64 && data.len() as u64 <= n as u64 - (offset - b.base) {
                    let start = (offset - b.base) as usize;
                    let ghost before = b.bytes@;
                    let ghost b_base = b.base;
                    let mut i: usize = 0;
                    while i < data.len()
                        invariant
                            b.base == b_base,
                            i <= data@.len(),
                            start + data@.len() <= n,
                            b.bytes@.len() == n,
                            before.len() == n,
                            forall|j: int| 0 <= j < n ==> #[trigger] b.bytes@[j] == (if start <= j < start + i {
                                before[j] & data@[j - start]
                            } else {
                                before[j]
                            }),
                        decreases data@.len() - i,
                    {
                        let v = b.bytes[start + i] & data[i];
                        b.bytes.set(start + i, v);
                        i = i + 1;
                    }
                    proof {
                        assert(b.bytes@ =~= programmed(before, start as int, data@));
                    }
                    fits = true;
                }
            },
            None => {},
        }
        proof {
            let fits_spec = match b0 {
                Some(b) => offset >= b.0 && offset - b.0 + data@.len() <= b.1.len(),
                None => false,
            };
            assert(fits == fits_spec);
            assert(buffer_view(self.buffer) == (match b0 {
                Some(b) => if fits_spec {
                    Some((b.0, programmed(b.1, offset - b.0, data@)))
                } else {
                    Some(b)
                },
                None => None,
            }));
        }
        let st = if fits {
            ready
        } else {
            ready | STATUS_PROGRAM_ERROR
        };
        if s.counter == 0 {
            self.state = Cfi01State { wcycle: 3, status: st, ..s };
        } else {
            self.state = Cfi01State { status: st, counter: s.counter - 1, ..s };
        }
        Ghost(read_ok)
    }
}

/// The bank-relative byte offset of an ID or query read.
pub open spec fn bank_offset_spec(offset: u64, bank_width: u8) -> u64 {
    let b = offset % 256;
    if bank_width == 2 {
        b / 2
    } else if bank_width == 4 {
        b / 4
    } else {
        b
    }
}

fn bank_offset(offset: u64, bank_width: u8) -> (r: u64)
    ensures
        r == bank_offset_spec(offset, bank_width),
{
    let b = offset % 256;
    if bank_width == 2 {
        b / 2
    } else if bank_width == 4 {
        b / 4
    } else {
        b
    }
}

/// The identification word at `offset` (device width 0): manufacturer
/// and device codes, then the extended codes.
pub open spec fn id_word(c: PFlashCfi01Config, offset: u64) -> u64 {
    let boff = bank_offset_spec(offset, c.bank_width);
    if boff == 0 {
        ((c.ident0 << 8u16) | c.ident1) as u64
    } else if boff == 1 {
        ((c.ident2 << 8u16) | c.ident3) as u64
    } else {
        0
    }
}

/// The CFI table byte at `offset` (device width 0), 0 past the table.
pub open spec fn query_byte(table: Seq<u8>, c: PFlashCfi01Config, offset: u64) -> u64 {
    let boff = bank_offset_spec(offset, c.bank_width);
    if boff < CFI01_TABLE_LEN {
        table[boff as int] as u64
    } else {
        0
    }
}


/// The widest device of the bank (at least 1 byte).
pub open spec fn max_width(c: PFlashCfi01Config) -> u8 {
    let a = if c.max_device_width >= c.device_width { c.max_device_width } else { c.device_width };
    if a >= 1 { a } else { 1 }
}

/// The device width, at least 1 byte.
pub open spec fn dev_width(c: PFlashCfi01Config) -> u8 {
    if c.device_width >= 1 { c.device_width } else { 1 }
}

/// A bank offset scaled down to a device query offset.
pub open spec fn adjust_offset(c: PFlashCfi01Config, q: u64) -> u64 {
    q >> ((tz(c.bank_width as u64) + tz(max_width(c) as u64) - tz(dev_width(c) as u64)) as u64)
}

/// `value` as every device of the bank answers it.
pub open spec fn bank_value(c: PFlashCfi01Config, value: u64) -> int {
    let dw = dev_width(c);
    if dw >= c.bank_width {
        masked(value, c.bank_width as u32)
    } else {
        let unit = masked(value, dw as u32);
        bytes_value(Seq::new(c.bank_width as nat, |j: int| byte_of(unit, j % (dw as int))), false) as int
    }
}

/// The identification value of one bank read at `q` (device width set).
pub open spec fn id_bank(c: PFlashCfi01Config, q: u64) -> int {
    let o = adjust_offset(c, q) % 256;
    bank_value(c, if o == 0 { c.ident0 as u64 } else if o == 1 { c.ident1 as u64 } else { 0 })
}

/// The query value of one bank read at `q` (device width set).
pub open spec fn query_bank(c: PFlashCfi01Config, table: Seq<u8>, q: u64) -> int {
    let boff = adjust_offset(c, q);
    let byte: u8 = if boff < CFI01_TABLE_LEN { table[boff as int] } else { 0 };
    let mw = max_width(c);
    if c.device_width != mw {
        if c.device_width != 1 || c.bank_width > 4 {
            0
        } else {
            bank_value(c, bytes_value(Seq::new(mw as nat, |j: int| byte), false) as u64)
        }
    } else {
        bank_value(c, byte as u64)
    }
}

/// The bank read that supplies the chunk starting at byte `index`.
pub open spec fn chunk_offset(offset: u64, index: int, bw: int) -> u64 {
    (offset + index * bw) as u64
}

/// The bytes (least significant first) of a `size`-byte read assembled
/// from bank reads: byte `j` comes from the chunk of `bw` bytes that
/// holds it, where `f(q)` is the value read at bank offset `q`.
pub open spec fn combined_bytes(offset: u64, size: u32, bw: int, big_endian: bool, f: spec_fn(u64) -> int) -> Seq<u8> {
    Seq::new(
        size as nat,
        |j: int| {
            let m = if big_endian { size - 1 - j } else { j };
            let idx = (m / bw) * bw;
            let chunk = if bw <= size - idx { bw } else { size - idx };
            let k = if big_endian { chunk - 1 - (m - idx) } else { m - idx };
            byte_of(masked(f(chunk_offset(offset, idx, bw)) as u64, chunk as u32), k)
        },
    )
}

/// The value of a `size`-byte read assembled from bank reads.
pub open spec fn combined(offset: u64, size: u32, bw: int, big_endian: bool, f: spec_fn(u64) -> int) -> int {
    bytes_value(combined_bytes(offset, size, bw, big_endian, f), false) as int
}

/// The reads that the wide identification and query paths may make
/// without overflowing or over-shifting.
pub open spec fn wide_read_ok(c: PFlashCfi01Config, offset: u64, size: u32) -> bool {
    &&& offset + ((size - 1) / (c.bank_width as int)) * (c.bank_width as int) * (c.bank_width as int) <= u64::MAX
    &&& dev_width(c) < c.bank_width ==> c.bank_width <= 8
    &&& (c.device_width != max_width(c) && c.device_width == 1 && c.bank_width <= 4) ==> max_width(c) <= 8
}

proof fn lemma_tz_pow2(v: u8)
    requires
        pow2_u8(v),
    ensures
        tz(v as u64) <= 7,
        v == 1 ==> tz(v as u64) == 0,
        v == 2 ==> tz(v as u64) == 1,
        v == 4 ==> tz(v as u64) == 2,
        v == 8 ==> tz(v as u64) == 3,
        v == 16 ==> tz(v as u64) == 4,
        v == 32 ==> tz(v as u64) == 5,
        v == 64 ==> tz(v as u64) == 6,
        v == 128 ==> tz(v as u64) == 7,
{
    reveal_with_fuel(tz, 9);
}


/// The CFI 0002 command state.
#[derive(Debug, Clone, Copy, PartialEq, Eq, Structural)]
pub struct Cfi02State {
    pub wcycle: u8,
    pub cmd: u8,
    pub status: u8,
    pub bypass: bool,
    pub erase_suspended: bool,
}

/// Back to read-array mode, leaving unlock bypass.
pub open spec fn cfi02_reset(s: Cfi02State) -> Cfi02State {
    Cfi02State { cmd: 0, wcycle: 0, bypass: false, ..s }
}

/// `offset` lies in one of the sectors being erased.
pub open spec fn in_erasing(ranges: Seq<(u64, u64)>, offset: u64) -> bool {
    exists|i: int| 0 <= i < ranges.len() && ranges[i].0 <= offset < #[trigger] ranges[i].1
}

/// The command-address offset of a bus offset: scaled by the width and
/// cut to 11 bits.
pub open spec fn command_offset_spec(offset: u64, width: u8) -> u64 {
    (if width == 2 { offset / 2 } else if width == 4 { offset / 4 } else { offset }) % 0x800
}

/// The flash operation a CFI 0002 write starts.
#[derive(Debug, Clone, Copy, PartialEq, Eq, Structural)]
pub enum Cfi02Op {
    NoOp,
    Program,
    EraseChip,
    EraseSector(u64),
}

/// One write of command byte `cmd` at (wrapped) `offset`: the next
/// state, erase ranges and the flash operation started.
pub open spec fn cfi02_write_spec(
    c: PFlashCfi02Config,
    s: Cfi02State,
    ranges: Seq<(u64, u64)>,
    offset: u64,
    cmd: u8,
) -> (Cfi02State, Seq<(u64, u64)>, Cfi02Op) {
    let boff = command_offset_spec(offset, c.width);
    let reset = (cfi02_reset(s), ranges, Cfi02Op::NoOp);
    let sector = |st: Cfi02State| {
        let base = (offset - offset % c.sector_len) as u64;
        let end: u64 = if base + c.sector_len > u64::MAX { u64::MAX } else { (base + c.sector_len) as u64 };
        let r2 = if exists|i: int| 0 <= i < ranges.len() && #[trigger] ranges[i] == (base, end) { ranges } else { ranges.push((base, end)) };
        (Cfi02State { status: st.status & 0x77, cmd: 0x30, wcycle: 6, erase_suspended: false, ..st }, r2, Cfi02Op::EraseSector(base))
    };
    if s.cmd != 0xa0 && cmd == 0xf0 && s.cmd != 0x10 && s.cmd != 0x30 {
        if s.wcycle == CFI02_WCYCLE_AUTOSELECT_CFI {
            (Cfi02State { wcycle: 3, cmd: 0x90, ..s }, ranges, Cfi02Op::NoOp)
        } else {
            reset
        }
    } else if s.wcycle == 0 {
        if boff == 0x55 && cmd == 0x98 {
            (Cfi02State { wcycle: CFI02_WCYCLE_CFI, cmd: 0x98, ..s }, ranges, Cfi02Op::NoOp)
        } else if cmd == 0x30 {
            if s.erase_suspended {
                (Cfi02State { erase_suspended: false, status: (s.status & 0x7f) | 0x08, wcycle: 6, cmd: 0x30, ..s }, ranges, Cfi02Op::NoOp)
            } else {
                reset
            }
        } else if cmd == 0xb0 {
            (s, ranges, Cfi02Op::NoOp)
        } else if boff == c.unlock_addr0 && cmd == 0xaa {
            (Cfi02State { wcycle: 1, ..s }, ranges, Cfi02Op::NoOp)
        } else {
            reset
        }
    } else if s.wcycle == 1 {
        if boff == c.unlock_addr1 && cmd == 0x55 {
            (Cfi02State { wcycle: 2, ..s }, ranges, Cfi02Op::NoOp)
        } else {
            reset
        }
    } else if s.wcycle == 2 {
        if !s.bypass && boff != c.unlock_addr0 {
            reset
        } else if cmd == 0x20 {
            (Cfi02State { bypass: true, wcycle: 2, cmd: 0, ..s }, ranges, Cfi02Op::NoOp)
        } else if cmd == 0x80 || cmd == 0x90 || cmd == 0xa0 {
            (Cfi02State { cmd: cmd, wcycle: 3, ..s }, ranges, Cfi02Op::NoOp)
        } else {
            reset
        }
    } else if s.wcycle == 3 {
        if s.cmd == 0x80 {
            if boff == c.unlock_addr0 && cmd == 0xaa { (Cfi02State { wcycle: 4, ..s }, ranges, Cfi02Op::NoOp) } else { reset }
        } else if s.cmd == 0xa0 {
            if s.erase_suspended && in_erasing(ranges, offset) {
                if s.bypass { (Cfi02State { wcycle: 2, cmd: 0, ..s }, ranges, Cfi02Op::NoOp) } else { reset }
            } else {
                let st = Cfi02State { status: (s.status & 0x7f) | ((!cmd) & 0x80), ..s };
                let op = if c.read_only { Cfi02Op::NoOp } else { Cfi02Op::Program };
                if s.bypass {
                    (Cfi02State { wcycle: 2, cmd: 0, ..st }, ranges, op)
                } else {
                    (cfi02_reset(st), ranges, op)
                }
            }
        } else if s.cmd == 0x90 {
            if boff == 0x55 && cmd == 0x98 {
                (Cfi02State { wcycle: CFI02_WCYCLE_AUTOSELECT_CFI, cmd: 0x98, ..s }, ranges, Cfi02Op::NoOp)
            } else {
                reset
            }
        } else {
            reset
        }
    } else if s.wcycle == 4 {
        if s.cmd == 0x80 && boff == c.unlock_addr1 && cmd == 0x55 { (Cfi02State { wcycle: 5, ..s }, ranges, Cfi02Op::NoOp) } else { reset }
    } else if s.wcycle == 5 {
        if s.erase_suspended {
            reset
        } else if cmd == 0x10 && boff == c.unlock_addr0 {
            (Cfi02State { status: s.status & 0x7f, cmd: 0x10, wcycle: 6, ..s }, ranges, Cfi02Op::EraseChip)
        } else if cmd == 0x30 {
            sector(s)
        } else {
            reset
        }
    } else if s.wcycle == 6 {
        if s.cmd == 0x10 {
            (s, ranges, Cfi02Op::NoOp)
        } else if s.cmd == 0x30 {
            if cmd == 0xb0 {
                (cfi02_reset(Cfi02State { erase_suspended: true, status: s.status & !0x08u8, ..s }), ranges, Cfi02Op::NoOp)
            } else if cmd == 0x30 && s.status & 0x08 == 0 {
                sector(s)
            } else if s.status & 0x08 == 0 {
                reset
            } else {
                (s, ranges, Cfi02Op::NoOp)
            }
        } else {
            reset
        }
    } else {
        reset
    }
}

/// A CFI 0002 (AMD command set) parallel flash.
pub struct PFlashCfi02<B: BlockBackend> {
    pub name: String,
    pub flash: FlashMedia<B>,
    pub config: PFlashCfi02Config,
    pub chip_len: u64,
    pub state: Cfi02State,
    pub erasing_ranges: Vec<(u64, u64)>,
    pub cfi_table: [u8; CFI02_TABLE_LEN],
}

impl<B: BlockBackend> PFlashCfi02<B> {
    pub open spec fn wf(&self) -> bool {
        &&& cfi02_check(self.config) is Ok
        &&& cfi02_check(self.config) == Ok::<(PFlashCfi02Config, u64), PFlashConfigError>((self.config, self.chip_len))
        &&& self.chip_len > 0
        &&& self.config.sector_len <= usize::MAX
        &&& self.cfi_table@ == cfi02_table_spec(self.config, self.chip_len)
    }

    /// A flash on `flash` named "pflash-cfi02".
    pub fn new(flash: FlashMedia<B>, config: PFlashCfi02Config) -> (r: Result<Self, PFlashConfigError>)
        requires
            config.sector_len <= usize::MAX,
        ensures
            r is Err <==> cfi02_check(config) is Err,
            r matches Err(e) ==> cfi02_check(config) == Err::<(PFlashCfi02Config, u64), PFlashConfigError>(e),
            r matches Ok(d) ==> d.wf() && cfi02_check(config) == Ok::<(PFlashCfi02Config, u64), PFlashConfigError>((d.config, d.chip_len)) && d.state == (
            Cfi02State { wcycle: 0, cmd: 0, status: 0, bypass: false, erase_suspended: false })
                && d.erasing_ranges@.len() == 0 && d.flash.inner() == flash.inner() && d.flash.locked()
                == config.read_only,
    {
        Self::new_named("pflash-cfi02", flash, config)
    }

    /// A flash on `flash` named `local_id`.
    pub fn new_named(local_id: &str, flash: FlashMedia<B>, config: PFlashCfi02Config) -> (r: Result<Self, PFlashConfigError>)
        requires
            config.sector_len <= usize::MAX,
        ensures
            r is Err <==> cfi02_check(config) is Err,
            r matches Err(e) ==> cfi02_check(config) == Err::<(PFlashCfi02Config, u64), PFlashConfigError>(e),
            r matches Ok(d) ==> d.wf() && cfi02_check(config) == Ok::<(PFlashCfi02Config, u64), PFlashConfigError>((d.config, d.chip_len)) && d.state == (
            Cfi02State { wcycle: 0, cmd: 0, status: 0, bypass: false, erase_suspended: false })
                && d.erasing_ranges@.len() == 0 && d.flash.inner() == flash.inner() && d.flash.locked()
                == config.read_only,
    {
        let (cfg, chip_len) = validate_cfi02(config)?;
        proof {
            let a0 = config.unlock_addr0;
            let a1 = config.unlock_addr1;
            assert((a0 & 0x07ffu16) & 0x07ffu16 == a0 & 0x07ffu16) by (bit_vector);
            assert((a1 & 0x07ffu16) & 0x07ffu16 == a1 & 0x07ffu16) by (bit_vector);
            assert(config.sector_len * config.num_blocks > 0) by (nonlinear_arith)
                requires
                    config.sector_len > 0,
                    config.num_blocks > 0,
            ;
        }
        let cfi_table = cfi02_table(&cfg, chip_len);
        Ok(PFlashCfi02 {
            name: String::from_str(local_id),
            flash: flash.with_readonly(cfg.read_only),
            config: cfg,
            chip_len,
            state: Cfi02State { wcycle: 0, cmd: 0, status: 0, bypass: false, erase_suspended: false },
            erasing_ranges: Vec::new(),
            cfi_table,
        })
    }

    /// Back to read-array mode with a clear status and no erase pending.
    pub fn reset_runtime(&mut self)
        requires
            old(self).wf(),
        ensures
            final(self).wf(),
            final(self).state == (Cfi02State { wcycle: 0, cmd: 0, status: 0, bypass: false, erase_suspended: false }),
            final(self).erasing_ranges@.len() == 0,
            final(self).flash == old(self).flash && final(self).config == old(self).config,
    {
        self.state = Cfi02State { wcycle: 0, cmd: 0, status: 0, bypass: false, erase_suspended: false };
        self.erasing_ranges = Vec::new();
    }

    /// The end of a program or erase operation: toggle DQ7 and return to
    /// read-array mode.
    pub fn expire_timer(&mut self)
        requires
            old(self).wf(),
        ensures
            final(self).wf(),
            final(self).flash == old(self).flash && final(self).config == old(self).config,
            old(self).state.cmd == 0x10 || old(self).state.cmd == 0x30 ==> final(self).state == cfi02_reset(
                Cfi02State { status: old(self).state.status ^ 0x80, erase_suspended: false, ..old(self).state },
            ) && final(self).erasing_ranges@.len() == 0,
            !(old(self).state.cmd == 0x10 || old(self).state.cmd == 0x30) ==> final(self).state == old(self).state
                && final(self).erasing_ranges@ == old(self).erasing_ranges@,
    {
        if self.state.cmd == 0x10 || self.state.cmd == 0x30 {
            let s = self.state;
            self.state = Cfi02State { status: s.status ^ 0x80, erase_suspended: false, cmd: 0, wcycle: 0, bypass: false };
            self.erasing_ranges = Vec::new();
        }
    }

    fn offset_is_erasing(&self, offset: u64) -> (r: bool)
        ensures
            r == in_erasing(self.erasing_ranges@, offset),
    {
        let mut i: usize = 0;
        while i < self.erasing_ranges.len()
            invariant
                i <= self.erasing_ranges@.len(),
                forall|j: int| 0 <= j < i ==> !(self.erasing_ranges@[j].0 <= offset < #[trigger] self.erasing_ranges@[j].1),
            decreases self.erasing_ranges@.len() - i,
        {
            let (a, b) = self.erasing_ranges[i];
            if offset >= a && offset < b {
                return true;
            }
            i = i + 1;
        }
        false
    }

    fn wrap_offset(&self, offset: u64) -> (r: u64)
        requires
            self.wf(),
        ensures
            r == offset % self.chip_len,
            r < self.chip_len,
    {
        offset % self.chip_len
    }

    fn read_data(&self, offset: u64, size: u32) -> (r: u64)
        requires
            1 <= size <= 8,
        ensures
            r == 0 || (offset + size <= self.flash.inner().contents().len() && r == bytes_value(
                self.flash.inner().contents().subrange(offset as int, offset + size),
                self.config.big_endian,
            )),
            offset + size > self.flash.inner().contents().len() ==> r == 0,
    {
        let mut bytes: Vec<u8> = vec![0u8; size as usize];
        match self.flash.read(offset, bytes.as_mut_slice()) {
            Ok(()) => bytes_to_value(bytes.as_slice(), self.config.big_endian),
            Err(_) => 0,
        }
    }

    /// One byte of an 8-bit ID read: the codes, or the flash byte (0 when
    /// it cannot be read).
    fn id_x8_byte(&self, offset: u64) -> (r: u8)
        ensures
            match id_x8_code(self.config, offset) {
                Some(b) => r == b,
                None => r == 0 || (offset < self.flash.inner().contents().len() && r == self.flash.inner().contents()[offset as int]),
            },
    {
        let o = offset % 256;
        if o == 0 {
            (self.config.ident0 % 256) as u8
        } else if o == 1 {
            (self.config.ident1 % 256) as u8
        } else if o == 2 {
            0
        } else if o == 0x0e && self.config.ident2 % 256 != 0xff {
            (self.config.ident2 % 256) as u8
        } else if o == 0x0f && self.config.ident3 % 256 != 0xff {
            (self.config.ident3 % 256) as u8
        } else {
            let mut byte: Vec<u8> = vec![0u8; 1];
            match self.flash.read(offset, byte.as_mut_slice()) {
                Ok(()) => byte[0],
                Err(_) => 0,
            }
        }
    }

    /// A `size`-byte read at `offset` (wrapped to the chip). During a
    /// suspended erase, reads of an erasing sector toggle DQ2 and return
    /// the status; program and erase commands toggle the status bits;
    /// ID and query modes return the codes and CFI table; an unknown
    /// command returns to array mode first.
    pub fn do_read(&mut self, offset: u64, size: u32) -> (r: u64)
        requires
            old(self).wf(),
            1 <= size <= 4 && old(self).config.width == 1 && (old(self).state.cmd == 0x90 || old(self).state.cmd == 0x98)
                ==> offset % old(self).chip_len + size <= u64::MAX,
        ensures
            final(self).wf(),
            final(self).flash == old(self).flash && final(self).config == old(self).config,
            final(self).erasing_ranges == old(self).erasing_ranges,
            ({
                let s = old(self).state;
                let c = old(self).config;
                let off = offset % old(self).chip_len;
                let mem = old(self).flash.inner().contents();
                let data_ok = r == 0 || (off + size <= mem.len() && r == bytes_value(mem.subrange(off as int, off + size), c.big_endian));
                let susp = s.erase_suspended && in_erasing(old(self).erasing_ranges@, off);
                &&& (size == 0 || size > 4) ==> r == 0 && final(self).state == s
                &&& 1 <= size <= 4 && susp ==> final(self).state == Cfi02State { status: s.status ^ 0x04, ..s }
                    && r == (s.status ^ 0x04) as u64
                &&& 1 <= size <= 4 && !susp && (s.cmd == 0 || s.cmd == 0x80) ==> data_ok && final(self).state == s
                &&& 1 <= size <= 4 && !susp && (s.cmd == 0x10 || s.cmd == 0xa0) ==> final(self).state == Cfi02State {
                    status: s.status ^ 0x40, ..s } && r == (s.status ^ 0x40) as u64
                &&& 1 <= size <= 4 && !susp && s.cmd == 0x30 ==> final(self).state == Cfi02State {
                    status: s.status ^ 0x44, ..s } && r == (s.status ^ 0x44) as u64
                &&& 1 <= size <= 4 && !susp && s.cmd == 0x98 ==> final(self).state == s && r == query_value(
                    old(self).cfi_table@, c, off, size)
                &&& 1 <= size <= 4 && !susp && s.cmd == 0x90 ==> final(self).state == s && id_value_ok(c, mem, off, size, r)
                &&& 1 <= size <= 4 && !susp && !(s.cmd == 0 || s.cmd == 0x80 || s.cmd == 0x10 || s.cmd == 0xa0
                    || s.cmd == 0x30 || s.cmd == 0x98 || s.cmd == 0x90) ==> data_ok && final(self).state == cfi02_reset(s)
            }),
    {
        if size == 0 || size > 4 {
            return 0;
        }
        let off = self.wrap_offset(offset);
        if self.state.erase_suspended && self.offset_is_erasing(off) {
            self.state.status = self.state.status ^ 0x04;
            return self.state.status as u64;
        }
        let c = self.state.cmd;
        if c == 0x00 || c == 0x80 {
            self.read_data(off, size)
        } else if c == 0x90 {
            self.read_id(off, size)
        } else if c == 0x98 {
            self.read_query(off, size)
        } else if c == 0x10 || c == 0xa0 {
            self.state.status = self.state.status ^ 0x40;
            self.state.status as u64
        } else if c == 0x30 {
            self.state.status = self.state.status ^ 0x44;
            self.state.status as u64
        } else {
            self.state.cmd = 0;
            self.state.wcycle = 0;
            self.state.bypass = false;
            self.read_data(off, size)
        }
    }

    fn read_id(&self, off: u64, size: u32) -> (r: u64)
        requires
            self.wf(),
            1 <= size <= 4,
            self.config.width == 1 ==> off + size <= u64::MAX,
        ensures
            id_value_ok(self.config, self.flash.inner().contents(), off, size, r),
    {
        if self.config.width == 1 && size > 1 {
            let mut bytes: Vec<u8> = Vec::new();
            let mut i: u32 = 0;
            while i < size
                invariant
                    i <= size <= 4,
                    off + size <= u64::MAX,
                    bytes@.len() == i,
                    forall|j: int| 0 <= j < i ==> id_byte_ok(self.config, self.flash.inner().contents(), (off + j) as u64, #[trigger] bytes@[j]),
                decreases size - i,
            {
                let b = self.id_x8_byte(off + i as u64);
                bytes.push(b);
                i = i + 1;
            }
            let r = bytes_to_value(bytes.as_slice(), self.config.big_endian);
            proof {
                assert(bytes@.len() == size && (forall|j: int| 0 <= j < size ==> id_byte_ok(self.config, self.flash.inner().contents(), (off + j) as u64, #[trigger] bytes@[j])) && r == bytes_value(bytes@, self.config.big_endian));
            }
            return r;
        }
        let boff = command_scale(off % 256, self.config.width);
        let value: u64 = if boff == 0 {
            self.config.ident0 as u64
        } else if boff == 1 {
            self.config.ident1 as u64
        } else if boff == 2 {
            0
        } else if boff == 0x0e && self.config.ident2 % 256 != 0xff {
            self.config.ident2 as u64
        } else if boff == 0x0f && self.config.ident3 % 256 != 0xff {
            self.config.ident3 as u64
        } else {
            self.read_data(off, size)
        };
        mask_width(value, size)
    }

    fn read_query(&self, off: u64, size: u32) -> (r: u64)
        requires
            self.wf(),
            1 <= size <= 4,
            self.config.width == 1 ==> off + size <= u64::MAX,
        ensures
            r == query_value(self.cfi_table@, self.config, off, size),
    {
        if self.config.width == 1 && size > 1 {
            let mut bytes: Vec<u8> = Vec::new();
            let mut i: u32 = 0;
            while i < size
                invariant
                    i <= size <= 4,
                    off + size <= u64::MAX,
                    bytes@.len() == i,
                    forall|j: int| 0 <= j < i ==> #[trigger] bytes@[j] == table_byte(self.cfi_table@, ((off + j) % 256) as u64),
                decreases size - i,
            {
                let o = (off + i as u64) % 256;
                let b: u8 = if o < CFI02_TABLE_LEN as u64 {
                    self.cfi_table[o as usize]
                } else {
                    0
                };
                bytes.push(b);
                i = i + 1;
            }
            proof {
                assert(bytes@ =~= Seq::new(size as nat, |j: int| table_byte(self.cfi_table@, ((off + j) % 256) as u64)));
            }
            return bytes_to_value(bytes.as_slice(), self.config.big_endian);
        }
        let boff = command_scale(off % 256, self.config.width);
        let b: u8 = if boff < CFI02_TABLE_LEN as u64 {
            self.cfi_table[boff as usize]
        } else {
            0
        };
        mask_width(b as u64, size)
    }

    /// A `size`-byte write of `value` at `offset` (wrapped to the chip):
    /// one cycle of the command state machine (see [`cfi02_write_spec`]),
    /// starting the flash operation it names; the operation's result is
    /// not reported to the guest.
    pub fn do_write(&mut self, offset: u64, size: u32, value: u64)
        requires
            old(self).wf(),
            old(self).flash.inner().contents().len() <= usize::MAX,
        ensures
            final(self).wf(),
            final(self).config == old(self).config && final(self).chip_len == old(self).chip_len,
            final(self).cfi_table == old(self).cfi_table,
            final(self).flash.block() == old(self).flash.block(),
            final(self).flash.fill() == old(self).flash.fill(),
            final(self).flash.locked() == old(self).flash.locked(),
            (size == 0 || size > 4) ==> *final(self) == *old(self),
            1 <= size <= 4 ==> ({
                let off = offset % old(self).chip_len;
                let res = cfi02_write_spec(old(self).config, old(self).state, old(self).erasing_ranges@, off, (value % 256) as u8);
                &&& final(self).state == res.0
                &&& final(self).erasing_ranges@ == res.1
                &&& res.2 == Cfi02Op::NoOp ==> final(self).flash == old(self).flash
            }),
    {
        if size == 0 || size > 4 {
            return;
        }
        let cmd = (value % 256) as u8;
        let off = self.wrap_offset(offset);
        let boff = command_scale(off, self.config.width) % 0x800;
        let s = self.state;
        let ghost ranges = self.erasing_ranges@;
        let ghost spec_res = cfi02_write_spec(self.config, s, ranges, off, cmd);
        let c = self.config;
        let reset = Cfi02State { cmd: 0, wcycle: 0, bypass: false, ..s };
        if s.cmd != 0xa0 && cmd == 0xf0 && s.cmd != 0x10 && s.cmd != 0x30 {
            if s.wcycle == CFI02_WCYCLE_AUTOSELECT_CFI {
                self.state = Cfi02State { wcycle: 3, cmd: 0x90, ..s };
            } else {
                self.state = reset;
            }
        } else if s.wcycle == 0 {
            if boff == 0x55 && cmd == 0x98 {
                self.state = Cfi02State { wcycle: CFI02_WCYCLE_CFI, cmd: 0x98, ..s };
            } else if cmd == 0x30 {
                if s.erase_suspended {
                    self.state = Cfi02State { erase_suspended: false, status: (s.status & 0x7f) | 0x08, wcycle: 6, cmd: 0x30, ..s };
                } else {
                    self.state = reset;
                }
            } else if cmd == 0xb0 {
            } else if boff == c.unlock_addr0 as u64 && cmd == 0xaa {
                self.state = Cfi02State { wcycle: 1, ..s };
            } else {
                self.state = reset;
            }
        } else if s.wcycle == 1 {
            if boff == c.unlock_addr1 as u64 && cmd == 0x55 {
                self.state = Cfi02State { wcycle: 2, ..s };
            } else {
                self.state = reset;
            }
        } else if s.wcycle == 2 {
            if !s.bypass && boff != c.unlock_addr0 as u64 {
                self.state = reset;
            } else if cmd == 0x20 {
                self.state = Cfi02State { bypass: true, wcycle: 2, cmd: 0, ..s };
            } else if cmd == 0x80 || cmd == 0x90 || cmd == 0xa0 {
                self.state = Cfi02State { cmd: cmd, wcycle: 3, ..s };
            } else {
                self.state = reset;
            }
        } else if s.wcycle == 3 {
            if s.cmd == 0x80 {
                if boff == c.unlock_addr0 as u64 && cmd == 0xaa {
                    self.state = Cfi02State { wcycle: 4, ..s };
                } else {
                    self.state = reset;
                }
            } else if s.cmd == 0xa0 {
                if s.erase_suspended && self.offset_is_erasing(off) {
                    if s.bypass {
                        self.state = Cfi02State { wcycle: 2, cmd: 0, ..s };
                    } else {
                        self.state = reset;
                    }
                } else {
                    if !c.read_only {
                        let bytes = value_to_bytes(value, size, c.big_endian);
                        let _ = self.flash.program(off, bytes.as_slice());
                    }
                    let st = Cfi02State { status: (s.status & 0x7f) | ((!cmd) & 0x80), ..s };
                    if s.bypass {
                        self.state = Cfi02State { wcycle: 2, cmd: 0, ..st };
                    } else {
                        self.state = Cfi02State { cmd: 0, wcycle: 0, bypass: false, ..st };
                    }
                }
            } else if s.cmd == 0x90 {
                if boff == 0x55 && cmd == 0x98 {
                    self.state = Cfi02State { wcycle: CFI02_WCYCLE_AUTOSELECT_CFI, cmd: 0x98, ..s };
                } else {
                    self.state = reset;
                }
            } else {
                self.state = reset;
            }
        } else if s.wcycle == 4 {
            if s.cmd == 0x80 && boff == c.unlock_addr1 as u64 && cmd == 0x55 {
                self.state = Cfi02State { wcycle: 5, ..s };
            } else {
                self.state = reset;
            }
        } else if s.wcycle == 5 {
            if s.erase_suspended {
                self.state = reset;
            } else if cmd == 0x10 && boff == c.unlock_addr0 as u64 {
                let _ = self.flash.erase_all();
                self.state = Cfi02State { status: s.status & 0x7f, cmd: 0x10, wcycle: 6, ..s };
            } else if cmd == 0x30 {
                self.begin_sector_erase(off, s);
            } else {
                self.state = reset;
            }
        } else if s.wcycle == 6 {
            if s.cmd == 0x10 {
            } else if s.cmd == 0x30 {
                if cmd == 0xb0 {
                    self.state = Cfi02State { erase_suspended: true, status: s.status & !0x08u8, cmd: 0, wcycle: 0, bypass: false };
                } else if cmd == 0x30 && s.status & 0x08 == 0 {
                    self.begin_sector_erase(off, s);
                } else if s.status & 0x08 == 0 {
                    self.state = reset;
                }
            } else {
                self.state = reset;
            }
        } else {
            self.state = reset;
        }
        proof {
            assert(boff == command_offset_spec(off, c.width));
        }
    }

    fn begin_sector_erase(&mut self, off: u64, s: Cfi02State)
        requires
            old(self).wf(),
        ensures
            final(self).wf(),
            final(self).config == old(self).config && final(self).chip_len == old(self).chip_len,
            final(self).cfi_table == old(self).cfi_table,
            final(self).flash.block() == old(self).flash.block(),
            final(self).flash.fill() == old(self).flash.fill(),
            final(self).flash.locked() == old(self).flash.locked(),
            ({
                let sl = old(self).config.sector_len;
                let base = (off - off % sl) as u64;
                let end: u64 = if base + sl > u64::MAX { u64::MAX } else { (base + sl) as u64 };
                let ranges = old(self).erasing_ranges@;
                &&& final(self).erasing_ranges@ == (if exists|i: int| 0 <= i < ranges.len() && #[trigger] ranges[i] == (base, end) { ranges } else { ranges.push((base, end)) })
                &&& final(self).state == Cfi02State { status: s.status & 0x77, cmd: 0x30, wcycle: 6, erase_suspended: false, ..s }
            }),
    {
        let sl = self.config.sector_len;
        assert(off % sl <= off) by (nonlinear_arith)
            requires
                sl > 0,
        ;
        let base = off - off % sl;
        let _ = self.flash.erase(base, sl);
        self.state = Cfi02State { status: s.status & 0x77, cmd: 0x30, wcycle: 6, erase_suspended: false, ..s };
        let end = base.saturating_add(sl);
        let mut found = false;
        let mut i: usize = 0;
        while i < self.erasing_ranges.len()
            invariant
                i <= self.erasing_ranges@.len(),
                self.erasing_ranges@ == old(self).erasing_ranges@,
                found <==> exists|j: int| 0 <= j < i && #[trigger] self.erasing_ranges@[j] == (base, end),
            decreases self.erasing_ranges@.len() - i,
        {
            let (a, b) = self.erasing_ranges[i];
            if a == base && b == end {
                found = true;
            }
            i = i + 1;
        }
        if !found {
            self.erasing_ranges.push((base, end));
        }
    }
}

/// The offset scaled by the bus width.
pub open spec fn command_scale_spec(offset: u64, width: u8) -> u64 {
    if width == 2 { offset / 2 } else if width == 4 { offset / 4 } else { offset }
}

fn command_scale(offset: u64, width: u8) -> (r: u64)
    ensures
        r == command_scale_spec(offset, width),
{
    if width == 2 {
        offset / 2
    } else if width == 4 {
        offset / 4
    } else {
        offset
    }
}

/// CFI table byte `o`, 0 past the table.
pub open spec fn table_byte(table: Seq<u8>, o: u64) -> u8 {
    if o < CFI02_TABLE_LEN { table[o as int] } else { 0 }
}

/// A query read of `size` bytes at `off`.
pub open spec fn query_value(table: Seq<u8>, c: PFlashCfi02Config, off: u64, size: u32) -> int {
    if c.width == 1 && size > 1 {
        bytes_value(Seq::new(size as nat, |j: int| table_byte(table, ((off + j) % 256) as u64)), c.big_endian) as int
    } else {
        masked(table_byte(table, command_scale_spec(off % 256, c.width)) as u64, size)
    }
}

/// The code an 8-bit ID read returns at `offset`, or `None` where it
/// reads the flash.
pub open spec fn id_x8_code(c: PFlashCfi02Config, offset: u64) -> Option<u8> {
    let o = offset % 256;
    if o == 0 {
        Some((c.ident0 % 256) as u8)
    } else if o == 1 {
        Some((c.ident1 % 256) as u8)
    } else if o == 2 {
        Some(0u8)
    } else if o == 0x0e && c.ident2 % 256 != 0xff {
        Some((c.ident2 % 256) as u8)
    } else if o == 0x0f && c.ident3 % 256 != 0xff {
        Some((c.ident3 % 256) as u8)
    } else {
        None
    }
}

/// `b` is what an 8-bit ID read may return at `offset`.
pub open spec fn id_byte_ok(c: PFlashCfi02Config, mem: Seq<u8>, offset: u64, b: u8) -> bool {
    match id_x8_code(c, offset) {
        Some(x) => b == x,
        None => b == 0 || (offset < mem.len() && b == mem[offset as int]),
    }
}

/// `r` is what an ID read of `size` bytes at `off` may return: the
/// codes, and the flash bytes (0 when unreadable) elsewhere.
pub open spec fn id_value_ok(c: PFlashCfi02Config, mem: Seq<u8>, off: u64, size: u32, r: u64) -> bool {
    if c.width == 1 && size > 1 {
        exists|bytes: Seq<u8>|
            bytes.len() == size && (forall|j: int| 0 <= j < size ==> id_byte_ok(c, mem, (off + j) as u64, #[trigger] bytes[j]))
                && r == bytes_value(bytes, c.big_endian)
    } else {
        let boff = command_scale_spec(off % 256, c.width);
        let v: Option<u64> = if boff == 0 {
            Some(c.ident0 as u64)
        } else if boff == 1 {
            Some(c.ident1 as u64)
        } else if boff == 2 {
            Some(0u64)
        } else if boff == 0x0e && c.ident2 % 256 != 0xff {
            Some(c.ident2 as u64)
        } else if boff == 0x0f && c.ident3 % 256 != 0xff {
            Some(c.ident3 as u64)
        } else {
            None
        };
        match v {
            Some(x) => r == masked(x, size),
            None => exists|d: u64|
                (d == 0 || (off + size <= mem.len() && d == bytes_value(mem.subrange(off as int, off + size), c.big_endian)))
                    && r == masked(d, size),
        }
    }
}


/// Clear Status Register: a write whose low byte is 0x50 in the first
/// write cycle leaves the status register READY (0x80), whatever it held
/// before, so no program or erase error bit survives; the flash returns
/// to read-array mode and neither the flash nor the write buffer changes.
pub proof fn lemma_cfi01_clear_status(
    cfg: PFlashCfi01Config,
    wbs: u64,
    fill: u8,
    s: Cfi01State,
    buf: Option<(u64, Seq<u8>)>,
    mem: Seq<u8>,
    offset: u64,
    size: u32,
    value: u64,
    ok: bool,
    s2: Cfi01State,
    buf2: Option<(u64, Seq<u8>)>,
    mem2: Seq<u8>,
)
    requires
        s.wcycle == 0,
        value % 256 == 0x50,
        cfi01_step(cfg, wbs, fill, s, buf, mem, offset, size, value, ok, s2, buf2, mem2),
    ensures
        s2.status == 0x80u8,
        s2.wcycle == 0 && s2.cmd == 0,
        mem2 == mem && buf2 == buf,
{
}

} // verus!
