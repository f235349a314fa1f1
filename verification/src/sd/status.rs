//! SD card status bits (R1 response format).
use vstd::prelude::*;

verus! {

pub const OUT_OF_RANGE: u32 = 0x8000_0000;
pub const ADDRESS_ERROR: u32 = 0x4000_0000;
pub const BLOCK_LEN_ERROR: u32 = 0x2000_0000;
pub const ERASE_SEQ_ERROR: u32 = 0x1000_0000;
pub const ERASE_PARAM: u32 = 0x0800_0000;
pub const WP_VIOLATION: u32 = 0x0400_0000;
pub const CARD_IS_LOCKED: u32 = 0x0200_0000;
pub const LOCK_UNLOCK_FAILED: u32 = 0x0100_0000;
pub const COM_CRC_ERROR: u32 = 0x0080_0000;
pub const ILLEGAL_COMMAND: u32 = 0x0040_0000;
pub const CARD_ECC_FAILED: u32 = 0x0020_0000;
pub const CC_ERROR: u32 = 0x0010_0000;
pub const SD_ERROR: u32 = 0x0008_0000;
pub const CID_CSD_OVERWRITE: u32 = 0x0001_0000;
pub const WP_ERASE_SKIP: u32 = 0x8000;
pub const CARD_ECC_DISABLED: u32 = 0x4000;
pub const ERASE_RESET: u32 = 0x2000;
pub const CURRENT_STATE: u32 = 0x0E00;
pub const READY_FOR_DATA: u32 = 0x0100;
pub const APP_CMD: u32 = 0x0020;
pub const AKE_SEQ_ERROR: u32 = 0x0008;

} // verus!
