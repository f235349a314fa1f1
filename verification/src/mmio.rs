//! Helpers shared by the MMIO register models: access-size masks and
//! the splitting of unaligned accesses into aligned chunks.
use vstd::prelude::*;

verus! {

/// The mask of an access of `size` bytes (all ones for other sizes).
pub open spec fn spec_access_mask(size: u32) -> u64 {
    if size == 1 {
        0xff
    } else if size == 2 {
        0xffff
    } else if size == 4 {
        0xffff_ffff
    } else {
        u64::MAX
    }
}

/// The mask of an access of `size` bytes: 1, 2 or 4 bytes wide, all
/// ones for any other size.
pub fn access_mask(size: u32) -> (r: u64)
    ensures
        r == spec_access_mask(size),
{
    if size == 1 {
        0xff
    } else if size == 2 {
        0xffff
    } else if size == 4 {
        0xffff_ffff
    } else {
        u64::MAX
    }
}

/// The mask of an access of 1, 2, 4 or 8 bytes; zero for other sizes.
pub open spec fn spec_mask_for_size(size: u32) -> u64 {
    if size == 1 {
        0xff
    } else if size == 2 {
        0xffff
    } else if size == 4 {
        0xffff_ffff
    } else if size == 8 {
        u64::MAX
    } else {
        0
    }
}

/// The mask of an access of 1, 2, 4 or 8 bytes; zero for other sizes.
pub fn mask_for_size(size: u32) -> (r: u64)
    ensures
        r == spec_mask_for_size(size),
{
    if size == 1 {
        0xff
    } else if size == 2 {
        0xffff
    } else if size == 4 {
        0xffff_ffff
    } else if size == 8 {
        u64::MAX
    } else {
        0
    }
}

/// `value` truncated to an access of 1, 2 or 4 bytes; zero for any
/// other size.
pub open spec fn spec_value_for_size(value: u64, size: u32) -> u64 {
    if size == 1 {
        value & 0xff
    } else if size == 2 {
        value & 0xffff
    } else if size == 4 {
        value & 0xffff_ffff
    } else {
        0
    }
}

/// `value` truncated to an access of 1, 2 or 4 bytes; zero for any
/// other size.
pub fn value_for_size(value: u64, size: u32) -> (r: u64)
    ensures
        r == spec_value_for_size(value, size),
{
    if size == 1 {
        value & 0xff
    } else if size == 2 {
        value & 0xffff
    } else if size == 4 {
        value & 0xffff_ffff
    } else {
        0
    }
}

/// A 1-, 2- or 4-byte access aligned to its size.
pub open spec fn spec_valid_mmio_access(offset: u64, size: u32) -> bool {
    (size == 1 || size == 2 || size == 4) && offset % (size as u64) == 0
}

/// Whether the access is 1, 2 or 4 bytes wide and aligned to its size.
pub fn valid_mmio_access(offset: u64, size: u32) -> (r: bool)
    ensures
        r == spec_valid_mmio_access(offset, size),
{
    (size == 1 || size == 2 || size == 4) && offset % (size as u64) == 0
}

/// A 2-, 4- or 8-byte access that is not aligned to its size.
pub open spec fn spec_needs_unaligned_split(offset: u64, size: u32) -> bool {
    (size == 2 || size == 4 || size == 8) && offset % (size as u64) != 0
}

/// Whether a 2-, 4- or 8-byte access is misaligned and must be split.
pub fn needs_unaligned_split(offset: u64, size: u32) -> (r: bool)
    ensures
        r == spec_needs_unaligned_split(offset, size),
{
    (size == 2 || size == 4 || size == 8) && offset % (size as u64) != 0
}

/// The largest of 8, 4, 2, 1 bytes that fits in `remaining` and to which
/// `offset` is aligned.
pub open spec fn spec_chunk_size(offset: u64, remaining: u32) -> u32 {
    if remaining >= 8 && offset % 8 == 0 {
        8
    } else if remaining >= 4 && offset % 4 == 0 {
        4
    } else if remaining >= 2 && offset % 2 == 0 {
        2
    } else {
        1
    }
}

/// The size of the next aligned chunk of a split access.
pub fn aligned_chunk_size(offset: u64, remaining: u32) -> (r: u32)
    ensures
        r == spec_chunk_size(offset, remaining),
        1 <= r <= 8,
        remaining >= 1 ==> r <= remaining,
        !spec_needs_unaligned_split(offset, r),
{
    if remaining >= 8 && offset % 8 == 0 {
        8
    } else if remaining >= 4 && offset % 4 == 0 {
        4
    } else if remaining >= 2 && offset % 2 == 0 {
        2
    } else {
        1
    }
}

/// The value of a split access after `done` of its `size` bytes: each
/// aligned chunk read through `f`, masked to its width and shifted into
/// place.
pub open spec fn split_value(f: spec_fn(u64, u32) -> u64, offset: u64, size: u32, done: u32) -> u64
    decreases size - done,
{
    if done >= size || offset + done > u64::MAX {
        0
    } else {
        let cur = (offset + done) as u64;
        let chunk = spec_chunk_size(cur, (size - done) as u32);
        let part = ((f(cur, chunk) & spec_access_mask(chunk)) << (8 * done) as u64) as u64;
        part | split_value(f, offset, size, (done + chunk) as u32)
    }
}

} // verus!
