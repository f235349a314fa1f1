//! ARM PrimeCell PL031 real-time clock register model.
use vstd::prelude::*;
use crate::mmio::{
    access_mask, aligned_chunk_size, needs_unaligned_split, spec_access_mask, spec_chunk_size,
    spec_needs_unaligned_split, split_value,
};

verus! {

pub const RTC_DR: u64 = 0x00;
pub const RTC_MR: u64 = 0x04;
pub const RTC_LR: u64 = 0x08;
pub const RTC_CR: u64 = 0x0c;
pub const RTC_IMSC: u64 = 0x10;
pub const RTC_RIS: u64 = 0x14;
pub const RTC_MIS: u64 = 0x18;
pub const RTC_ICR: u64 = 0x1c;

/// The PrimeCell identification bytes at 0xFE0..0x1000 (one per word).
pub open spec fn pl031_id(i: int) -> u64 {
    if i == 0 {
        0x31
    } else if i == 1 {
        0x10
    } else if i == 2 {
        0x14
    } else if i == 3 {
        0x00
    } else if i == 4 {
        0x0d
    } else if i == 5 {
        0xf0
    } else if i == 6 {
        0x05
    } else if i == 7 {
        0xb1
    } else {
        0
    }
}

fn id_byte(i: u64) -> (r: u64)
    ensures
        r == pl031_id(i as int),
{
    if i == 0 {
        0x31
    } else if i == 1 {
        0x10
    } else if i == 2 {
        0x14
    } else if i == 3 {
        0x00
    } else if i == 4 {
        0x0d
    } else if i == 5 {
        0xf0
    } else if i == 6 {
        0x05
    } else if i == 7 {
        0xb1
    } else {
        0
    }
}

/// The PL031 registers.
pub struct Pl031 {
    /// Data register: current time in seconds.
    pub dr: u32,
    /// Match register: alarm time.
    pub mr: u32,
    /// Load register.
    pub lr: u32,
    /// Interrupt mask.
    pub im: u32,
    /// Raw interrupt status.
    pub is: u32,
}

/// The full-width value of the register at `offset`.
pub open spec fn pl031_reg(s: Pl031, offset: u64) -> u64 {
    if offset == RTC_DR {
        s.dr as u64
    } else if offset == RTC_MR {
        s.mr as u64
    } else if offset == RTC_LR {
        s.lr as u64
    } else if offset == RTC_CR {
        1
    } else if offset == RTC_IMSC {
        s.im as u64
    } else if offset == RTC_RIS {
        s.is as u64
    } else if offset == RTC_MIS {
        (s.is & s.im) as u64
    } else if 0xFE0 <= offset <= 0xFFF {
        pl031_id(((offset - 0xFE0) / 4) as int)
    } else {
        0
    }
}

/// The value of an access that needs no splitting: a 64-bit access
/// reads two consecutive 32-bit registers.
pub open spec fn pl031_read_aligned(s: Pl031, offset: u64, size: u32) -> u64 {
    if size == 8 {
        let lo = pl031_reg(s, offset) & 0xffff_ffff;
        let hi = pl031_reg(s, (offset + 4) as u64) & 0xffff_ffff;
        lo | ((hi << 32u64) as u64)
    } else {
        pl031_reg(s, offset) & spec_access_mask(size)
    }
}

/// Aligned reads of the registers `s`, as a function.
pub open spec fn pl031_reader(s: Pl031) -> spec_fn(u64, u32) -> u64 {
    |o: u64, sz: u32| pl031_read_aligned(s, o, sz)
}

/// The value of a guest read of `size` bytes at `offset`.
pub open spec fn pl031_read(s: Pl031, offset: u64, size: u32) -> u64 {
    if spec_needs_unaligned_split(offset, size) {
        split_value(pl031_reader(s), offset, size, 0)
    } else {
        pl031_read_aligned(s, offset, size)
    }
}

/// The registers after a 32-bit (or narrower) guest write of `value`.
pub open spec fn pl031_write32(s: Pl031, offset: u64, value: u32) -> Pl031 {
    if offset == RTC_LR {
        Pl031 { lr: value, dr: value, is: if s.mr == value { 1 } else { s.is }, ..s }
    } else if offset == RTC_MR {
        Pl031 { mr: value, is: if value == s.dr { 1 } else { s.is }, ..s }
    } else if offset == RTC_IMSC {
        Pl031 { im: value & 1, ..s }
    } else if offset == RTC_ICR {
        Pl031 { is: s.is & !value, ..s }
    } else {
        s
    }
}

/// Whether a write to `offset` re-evaluates the interrupt line.
pub open spec fn pl031_write_updates_irq(offset: u64) -> bool {
    offset == RTC_LR || offset == RTC_MR || offset == RTC_IMSC || offset == RTC_ICR
}

impl Pl031 {
    /// Registers at reset.
    pub fn new() -> (r: Self)
        ensures
            r == (Pl031 { dr: 0, mr: 0, lr: 0, im: 0, is: 0 }),
    {
        Pl031 { dr: 0, mr: 0, lr: 0, im: 0, is: 0 }
    }

    /// Return every register to its reset value.
    pub fn reset(&mut self)
        ensures
            *final(self) == (Pl031 { dr: 0, mr: 0, lr: 0, im: 0, is: 0 }),
    {
        self.dr = 0;
        self.mr = 0;
        self.lr = 0;
        self.im = 0;
        self.is = 0;
    }

    /// The level of the interrupt line: a masked interrupt is pending.
    pub fn update(&self) -> (r: bool)
        ensures
            r == (self.is & self.im != 0),
    {
        self.is & self.im != 0
    }

    /// Raise the alarm when the match register equals the time.
    pub fn set_alarm(&mut self)
        ensures
            *final(self) == (Pl031 { is: if old(self).mr == old(self).dr { 1 } else { old(self).is }, ..*old(self) }),
    {
        if self.mr == self.dr {
            self.is = 1;
        }
    }

    /// Advance the clock by `seconds` (wrapping) and return the new
    /// interrupt level.
    pub fn tick(&mut self, seconds: u32) -> (r: bool)
        ensures
            ({
                let dr = ((old(self).dr + seconds) % 0x1_0000_0000) as u32;
                &&& *final(self) == (Pl031 {
                    dr,
                    is: if old(self).mr == dr { 1 } else { old(self).is },
                    ..*old(self)
                })
                &&& r == (final(self).is & final(self).im != 0)
            }),
    {
        self.dr = self.dr.wrapping_add(seconds);
        self.set_alarm();
        self.update()
    }

    /// The current time in seconds.
    pub fn current_time(&self) -> (r: u32)
        ensures
            r == self.dr,
    {
        self.dr
    }

    fn reg(&self, offset: u64) -> (r: u64)
        ensures
            r == pl031_reg(*self, offset),
    {
        if offset == RTC_DR {
            self.dr as u64
        } else if offset == RTC_MR {
            self.mr as u64
        } else if offset == RTC_LR {
            self.lr as u64
        } else if offset == RTC_CR {
            1
        } else if offset == RTC_IMSC {
            self.im as u64
        } else if offset == RTC_RIS {
            self.is as u64
        } else if offset == RTC_MIS {
            (self.is & self.im) as u64
        } else if 0xFE0 <= offset && offset <= 0xFFF {
            id_byte((offset - 0xFE0) / 4)
        } else {
            0
        }
    }

    fn read_aligned(&self, offset: u64, size: u32) -> (r: u64)
        requires
            size == 8 ==> offset + 4 <= u64::MAX,
        ensures
            r == pl031_read_aligned(*self, offset, size),
    {
        if size == 8 {
            let lo = self.reg(offset) & 0xffff_ffff;
            let hi = self.reg(offset + 4) & 0xffff_ffff;
            lo | (hi << 32)
        } else {
            self.reg(offset) & access_mask(size)
        }
    }

    /// A guest read of `size` bytes at `offset`; misaligned reads are
    /// split into aligned chunks.
    pub fn read(&self, offset: u64, size: u32) -> (r: u64)
        ensures
            r == pl031_read(*self, offset, size),
    {
        if needs_unaligned_split(offset, size) {
            let ghost f = pl031_reader(*self);
            let mut value: u64 = 0;
            let mut done: u32 = 0;
            proof {
                let x = split_value(f, offset, size, 0);
                assert(0u64 | x == x) by (bit_vector);
            }
            while done < size && offset <= u64::MAX - done as u64
                invariant
                    size <= 8,
                    done <= size,
                    f == pl031_reader(*self),
                    value | split_value(f, offset, size, done) == split_value(f, offset, size, 0),
                decreases size - done,
            {
                let cur = offset + done as u64;
                let chunk = aligned_chunk_size(cur, size - done);
                let part = (self.read_aligned(cur, chunk) & access_mask(chunk)) << (done * 8) as u64;
                proof {
                    let rest = split_value(f, offset, size, (done + chunk) as u32);
                    assert(split_value(f, offset, size, done) == part | rest);
                    assert((value | part) | rest == value | (part | rest)) by (bit_vector);
                }
                value = value | part;
                done = done + chunk;
            }
            proof {
                assert(split_value(f, offset, size, done) == 0);
                assert(value | 0 == value) by (bit_vector);
            }
            value
        } else {
            proof {
                if size == 8 {
                    assert(offset % 8 == 0);
                }
            }
            self.read_aligned(offset, size)
        }
    }

    fn write32(&mut self, offset: u64, value: u32) -> (r: Option<bool>)
        ensures
            *final(self) == pl031_write32(*old(self), offset, value),
            r == (if pl031_write_updates_irq(offset) {
                Some(final(self).is & final(self).im != 0)
            } else {
                None
            }),
    {
        if offset == RTC_LR {
            self.lr = value;
            self.dr = value;
            self.set_alarm();
            Some(self.update())
        } else if offset == RTC_MR {
            self.mr = value;
            self.set_alarm();
            Some(self.update())
        } else if offset == RTC_IMSC {
            self.im = value & 1;
            Some(self.update())
        } else if offset == RTC_ICR {
            self.is = self.is & !value;
            Some(self.update())
        } else {
            None
        }
    }

    /// A guest write of `size` bytes at `offset`. Returns the new level
    /// of the interrupt line when the write re-evaluates it; a 64-bit
    /// write is two 32-bit writes and reports the last level set.
    pub fn write(&mut self, offset: u64, size: u32, val: u64) -> (r: Option<bool>)
        ensures
            size == 8 ==> {
                let mid = pl031_write32(*old(self), offset, (val % 0x1_0000_0000) as u32);
                let hi_off = ((offset + 4) % 0x1_0000_0000_0000_0000) as u64;
                &&& *final(self) == pl031_write32(mid, hi_off, (val / 0x1_0000_0000) as u32)
                &&& r == (if pl031_write_updates_irq(hi_off) {
                    Some(final(self).is & final(self).im != 0)
                } else if pl031_write_updates_irq(offset) {
                    Some(mid.is & mid.im != 0)
                } else {
                    None
                })
            },
            size != 8 ==> *final(self) == pl031_write32(
                *old(self),
                offset,
                (val & spec_access_mask(size)) as u32,
            ) && r == (if pl031_write_updates_irq(offset) {
                Some(final(self).is & final(self).im != 0)
            } else {
                None
            }),
    {
        if size == 8 {
            let first = self.write32(offset, (val & 0xffff_ffff) as u32);
            let second = self.write32(offset.wrapping_add(4), (val >> 32) as u32);
            proof {
                assert(val & 0xffff_ffff == val % 0x1_0000_0000 && val >> 32 == val / 0x1_0000_0000)
                    by (bit_vector);
            }
            match second {
                Some(level) => Some(level),
                None => first,
            }
        } else {
            let mask = access_mask(size);
            self.write32(offset, (val & mask) as u32)
        }
    }
}

} // verus!
