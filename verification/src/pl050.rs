//! ARM PrimeCell PL050 PS/2 keyboard/mouse interface register model.
//!
//! Reading the data register consumes the pending byte, so a guest read
//! changes the registers; each access reports the last level it drove
//! onto the interrupt line, if any.
use vstd::prelude::*;
use crate::mmio::{
    access_mask, aligned_chunk_size, needs_unaligned_split, spec_access_mask, spec_chunk_size,
    spec_needs_unaligned_split,
};

verus! {

pub const PL050_TXEMPTY: u32 = 0x40;
pub const PL050_RXFULL: u32 = 0x10;
pub const PL050_RXPARITY: u32 = 0x04;
/// The byte a PS/2 device answers to anything it is sent: "resend".
pub const PS2_RESEND: u32 = 0xfe;

/// The PrimeCell identification bytes at 0xFE0..0x1000 (one per word).
pub open spec fn pl050_id(i: int) -> u64 {
    if i == 0 {
        0x50
    } else if i == 1 {
        0x10
    } else if i == 2 {
        0x04
    } else if i == 3 {
        0x00
    } else if i == 4 {
        0x0d
    } else if i == 5 {
        0xf0
    } else if i == 6 {
        0x05
    } else if i == 7 {
        0xb1
    } else {
        0
    }
}

fn id_byte(i: u64) -> (r: u64)
    ensures
        r == pl050_id(i as int),
{
    if i == 0 {
        0x50
    } else if i == 1 {
        0x10
    } else if i == 2 {
        0x04
    } else if i == 3 {
        0x00
    } else if i == 4 {
        0x0d
    } else if i == 5 {
        0xf0
    } else if i == 6 {
        0x05
    } else if i == 7 {
        0xb1
    } else {
        0
    }
}

/// The PL050 registers.
pub struct Pl050 {
    /// Control register.
    pub cr: u32,
    /// Clock divisor.
    pub clk: u32,
    /// The last byte received.
    pub last: u32,
    /// Receive-pending flag set by the PS/2 device.
    pub pending: i32,
    /// A byte queued in answer to a transmitted one.
    pub queued_response: Option<u32>,
}

/// The interrupt level: a pending byte with receive interrupts enabled,
/// or transmit interrupts enabled (the transmitter is always empty).
pub open spec fn pl050_irq_level(pending: i32, cr: u32) -> bool {
    (pending != 0 && cr & 0x10 != 0) || cr & 0x08 != 0
}

/// Parity (xor) of the low eight bits of `v`, as 0 or 1.
pub open spec fn low_byte_parity(v: u32) -> u32 {
    (v ^ (v >> 1u32) ^ (v >> 2u32) ^ (v >> 3u32) ^ (v >> 4u32) ^ (v >> 5u32) ^ (v >> 6u32) ^ (v >> 7u32)) & 1
}

/// The status register.
pub open spec fn pl050_status(s: Pl050) -> u32 {
    PL050_TXEMPTY | (if low_byte_parity(s.last) != 0 { PL050_RXPARITY } else { 0 }) | (if s.pending
        != 0 {
        PL050_RXFULL
    } else {
        0
    })
}

/// The first of two interrupt reports that is present.
pub open spec fn latest(later: Option<bool>, earlier: Option<bool>) -> Option<bool> {
    if later is Some {
        later
    } else {
        earlier
    }
}

/// A read of at most four bytes that needs no splitting: the registers
/// after it, the value read and the interrupt level set.
pub open spec fn pl050_read_word(s: Pl050, offset: u64, size: u32) -> (Pl050, u64, Option<bool>) {
    if 0xFE0 <= offset < 0x1000 {
        let idx = (offset - 0xFE0) / 4;
        (s, if idx < 8 { pl050_id(idx) & spec_access_mask(size) } else { 0 }, None)
    } else {
        let reg = offset / 4;
        if reg == 0 {
            (s, s.cr as u64 & spec_access_mask(size), None)
        } else if reg == 1 {
            (s, pl050_status(s) as u64 & spec_access_mask(size), None)
        } else if reg == 2 {
            if s.pending != 0 {
                let t = Pl050 {
                    last: match s.queued_response {
                        Some(b) => b,
                        None => s.last,
                    },
                    queued_response: None,
                    pending: 0,
                    ..s
                };
                (t, t.last as u64 & spec_access_mask(size), Some(pl050_irq_level(0, s.cr)))
            } else {
                (s, s.last as u64 & spec_access_mask(size), None)
            }
        } else if reg == 3 {
            (s, s.clk as u64 & spec_access_mask(size), None)
        } else if reg == 4 {
            (s, ((s.pending | 2) as u32) as u64 & spec_access_mask(size), None)
        } else {
            (s, 0, None)
        }
    }
}

/// A read that needs no splitting; an aligned 64-bit read is two 32-bit
/// reads.
pub open spec fn pl050_read_aligned(s: Pl050, offset: u64, size: u32) -> (Pl050, u64, Option<bool>) {
    if size == 8 {
        let lo = pl050_read_word(s, offset, 4);
        let hi = pl050_read_word(lo.0, (offset + 4) as u64, 4);
        (hi.0, lo.1 | ((hi.1 << 32u64) as u64), latest(hi.2, lo.2))
    } else {
        pl050_read_word(s, offset, size)
    }
}

/// The rest of a split read, from byte `done` on: each aligned chunk is
/// read in turn, masked and shifted into place.
pub open spec fn pl050_split_read(s: Pl050, offset: u64, size: u32, done: u32) -> (
    Pl050,
    u64,
    Option<bool>,
)
    decreases size - done,
{
    if done >= size || offset + done > u64::MAX {
        (s, 0, None)
    } else {
        let cur = (offset + done) as u64;
        let chunk = spec_chunk_size(cur, (size - done) as u32);
        let r = pl050_read_aligned(s, cur, chunk);
        let rest = pl050_split_read(r.0, offset, size, (done + chunk) as u32);
        let part = ((r.1 & spec_access_mask(chunk)) << (8 * done) as u64) as u64;
        (rest.0, part | rest.1, latest(rest.2, r.2))
    }
}

/// A guest read of `size` bytes at `offset`.
pub open spec fn pl050_read(s: Pl050, offset: u64, size: u32) -> (Pl050, u64, Option<bool>) {
    if spec_needs_unaligned_split(offset, size) {
        pl050_split_read(s, offset, size, 0)
    } else {
        pl050_read_aligned(s, offset, size)
    }
}

/// A write of at most four bytes that needs no splitting.
pub open spec fn pl050_write_word(s: Pl050, offset: u64, size: u32, val: u64) -> (Pl050, Option<bool>) {
    let value = (val & spec_access_mask(size)) as u32;
    let reg = offset / 4;
    if reg == 0 {
        (Pl050 { cr: value, ..s }, Some(pl050_irq_level(s.pending, value)))
    } else if reg == 2 {
        (Pl050 { queued_response: Some(PS2_RESEND), pending: 1, ..s }, Some(pl050_irq_level(1, s.cr)))
    } else if reg == 3 {
        (Pl050 { clk: value, ..s }, None)
    } else {
        (s, None)
    }
}

/// A write that needs no splitting; an aligned 64-bit write is two
/// 32-bit writes.
pub open spec fn pl050_write_aligned(s: Pl050, offset: u64, size: u32, val: u64) -> (Pl050, Option<bool>) {
    if size == 8 {
        let lo = pl050_write_word(s, offset, 4, val);
        let hi = pl050_write_word(lo.0, (offset + 4) as u64, 4, val >> 32u64);
        (hi.0, latest(hi.1, lo.1))
    } else {
        pl050_write_word(s, offset, size, val)
    }
}

/// The rest of a split write, from byte `done` on.
pub open spec fn pl050_split_write(s: Pl050, offset: u64, size: u32, val: u64, done: u32) -> (
    Pl050,
    Option<bool>,
)
    decreases size - done,
{
    if done >= size || offset + done > u64::MAX || done >= 8 {
        (s, None)
    } else {
        let cur = (offset + done) as u64;
        let chunk = spec_chunk_size(cur, (size - done) as u32);
        let r = pl050_write_aligned(s, cur, chunk, (val >> (8 * done) as u64) & spec_access_mask(chunk));
        let rest = pl050_split_write(r.0, offset, size, val, (done + chunk) as u32);
        (rest.0, latest(rest.1, r.1))
    }
}

/// A guest write of `size` bytes at `offset`.
pub open spec fn pl050_write(s: Pl050, offset: u64, size: u32, val: u64) -> (Pl050, Option<bool>) {
    if spec_needs_unaligned_split(offset, size) {
        pl050_split_write(s, offset, size, val, 0)
    } else {
        pl050_write_aligned(s, offset, size, val)
    }
}

fn first_some(later: Option<bool>, earlier: Option<bool>) -> (r: Option<bool>)
    ensures
        r == latest(later, earlier),
{
    match later {
        Some(b) => Some(b),
        None => earlier,
    }
}

impl Pl050 {
    /// Registers at reset.
    pub fn new() -> (r: Self)
        ensures
            r == (Pl050 { cr: 0, clk: 0, last: 0, pending: 0, queued_response: None }),
    {
        Pl050 { cr: 0, clk: 0, last: 0, pending: 0, queued_response: None }
    }

    /// Return every register to its reset value.
    pub fn reset_runtime(&mut self)
        ensures
            *final(self) == (Pl050 { cr: 0, clk: 0, last: 0, pending: 0, queued_response: None }),
    {
        self.cr = 0;
        self.clk = 0;
        self.last = 0;
        self.pending = 0;
        self.queued_response = None;
    }

    /// The interrupt level for `pending` and control register `cr`.
    pub fn irq_level(pending: i32, cr: u32) -> (r: bool)
        ensures
            r == pl050_irq_level(pending, cr),
    {
        (pending != 0 && (cr & 0x10) != 0) || (cr & 0x08) != 0
    }

    /// The PS/2 device raises or lowers its receive line; returns the new
    /// interrupt level.
    pub fn set_ps2_irq(&mut self, level: bool) -> (r: bool)
        ensures
            *final(self) == (Pl050 { pending: if level { 1 } else { 0 }, ..*old(self) }),
            r == pl050_irq_level(final(self).pending, final(self).cr),
    {
        self.pending = if level { 1 } else { 0 };
        Self::irq_level(self.pending, self.cr)
    }

    fn status(&self) -> (r: u32)
        ensures
            r == pl050_status(*self),
    {
        let mut val = self.last;
        val = val ^ (val >> 4u32);
        val = val ^ (val >> 2u32);
        let parity = (val ^ (val >> 1u32)) & 1;
        proof {
            let v = self.last;
            let a = v ^ (v >> 4u32);
            let b = a ^ (a >> 2u32);
            assert((b ^ (b >> 1u32)) & 1 == (v ^ (v >> 1u32) ^ (v >> 2u32) ^ (v >> 3u32) ^ (v >> 4u32)
                ^ (v >> 5u32) ^ (v >> 6u32) ^ (v >> 7u32)) & 1) by (bit_vector)
                requires
                    a == v ^ (v >> 4u32),
                    b == a ^ (a >> 2u32),
            ;
        }
        PL050_TXEMPTY | (if parity != 0 { PL050_RXPARITY } else { 0 }) | (if self.pending != 0 {
            PL050_RXFULL
        } else {
            0
        })
    }

    fn read_word(&mut self, offset: u64, size: u32) -> (r: (u64, Option<bool>))
        ensures
            (*final(self), r.0, r.1) == pl050_read_word(*old(self), offset, size),
    {
        if 0xFE0 <= offset && offset < 0x1000 {
            let idx = (offset - 0xFE0) / 4;
            if idx < 8 {
                return (id_byte(idx) & access_mask(size), None);
            }
            return (0, None);
        }
        let reg = offset / 4;
        let mask = access_mask(size);
        if reg == 0 {
            (self.cr as u64 & mask, None)
        } else if reg == 1 {
            (self.status() as u64 & mask, None)
        } else if reg == 2 {
            if self.pending != 0 {
                match self.queued_response {
                    Some(b) => {
                        self.last = b;
                    },
                    None => {},
                }
                self.queued_response = None;
                self.pending = 0;
                (self.last as u64 & mask, Some(Self::irq_level(0, self.cr)))
            } else {
                (self.last as u64 & mask, None)
            }
        } else if reg == 3 {
            (self.clk as u64 & mask, None)
        } else if reg == 4 {
            (((self.pending | 2) as u32) as u64 & mask, None)
        } else {
            (0, None)
        }
    }

    fn read_aligned(&mut self, offset: u64, size: u32) -> (r: (u64, Option<bool>))
        requires
            size == 8 ==> offset + 4 <= u64::MAX,
        ensures
            (*final(self), r.0, r.1) == pl050_read_aligned(*old(self), offset, size),
    {
        if size == 8 {
            let lo = self.read_word(offset, 4);
            let hi = self.read_word(offset + 4, 4);
            (lo.0 | (hi.0 << 32u64), first_some(hi.1, lo.1))
        } else {
            self.read_word(offset, size)
        }
    }

    /// A guest read of `size` bytes at `offset`: the value read and the
    /// last interrupt level set. Misaligned reads are split into aligned
    /// chunks, read in order.
    pub fn read(&mut self, offset: u64, size: u32) -> (r: (u64, Option<bool>))
        ensures
            (*final(self), r.0, r.1) == pl050_read(*old(self), offset, size),
    {
        if needs_unaligned_split(offset, size) {
            let ghost full = pl050_split_read(*old(self), offset, size, 0);
            let mut value: u64 = 0;
            let mut irq: Option<bool> = None;
            let mut done: u32 = 0;
            proof {
                let x = full.1;
                assert(0u64 | x == x) by (bit_vector);
            }
            while done < size && offset <= u64::MAX - done as u64
                invariant
                    size <= 8,
                    done <= size,
                    full == pl050_split_read(*old(self), offset, size, 0),
                    full.0 == pl050_split_read(*self, offset, size, done).0,
                    full.1 == value | pl050_split_read(*self, offset, size, done).1,
                    full.2 == latest(pl050_split_read(*self, offset, size, done).2, irq),
                decreases size - done,
            {
                let ghost before = *self;
                let cur = offset + done as u64;
                let chunk = aligned_chunk_size(cur, size - done);
                proof {
                    if chunk == 8 {
                        assert(cur % 8 == 0);
                    }
                }
                let got = self.read_aligned(cur, chunk);
                let part = (got.0 & access_mask(chunk)) << (done * 8) as u64;
                proof {
                    let rest = pl050_split_read(*self, offset, size, (done + chunk) as u32);
                    assert(pl050_split_read(before, offset, size, done) == (rest.0, part | rest.1, latest(rest.2, got.1)));
                    let r1 = rest.1;
                    assert((value | part) | r1 == value | (part | r1)) by (bit_vector);
                }
                value = value | part;
                irq = first_some(got.1, irq);
                done = done + chunk;
            }
            proof {
                let x = value;
                assert(x | 0 == x) by (bit_vector);
            }
            (value, irq)
        } else {
            proof {
                if size == 8 {
                    assert(offset % 8 == 0);
                }
            }
            self.read_aligned(offset, size)
        }
    }

    fn write_word(&mut self, offset: u64, size: u32, val: u64) -> (r: Option<bool>)
        ensures
            (*final(self), r) == pl050_write_word(*old(self), offset, size, val),
    {
        let value = (val & access_mask(size)) as u32;
        let reg = offset / 4;
        if reg == 0 {
            self.cr = value;
            Some(Self::irq_level(self.pending, self.cr))
        } else if reg == 2 {
            self.queued_response = Some(PS2_RESEND);
            self.pending = 1;
            Some(Self::irq_level(self.pending, self.cr))
        } else if reg == 3 {
            self.clk = value;
            None
        } else {
            None
        }
    }

    fn write_aligned(&mut self, offset: u64, size: u32, val: u64) -> (r: Option<bool>)
        requires
            size == 8 ==> offset + 4 <= u64::MAX,
        ensures
            (*final(self), r) == pl050_write_aligned(*old(self), offset, size, val),
    {
        if size == 8 {
            let lo = self.write_word(offset, 4, val);
            let hi = self.write_word(offset + 4, 4, val >> 32u64);
            first_some(hi, lo)
        } else {
            self.write_word(offset, size, val)
        }
    }

    /// A guest write of `size` bytes at `offset`; returns the last
    /// interrupt level set. Misaligned writes are split into aligned
    /// chunks, written in order.
    pub fn write(&mut self, offset: u64, size: u32, val: u64) -> (r: Option<bool>)
        ensures
            (*final(self), r) == pl050_write(*old(self), offset, size, val),
    {
        if needs_unaligned_split(offset, size) {
            let ghost full = pl050_split_write(*old(self), offset, size, val, 0);
            let mut irq: Option<bool> = None;
            let mut done: u32 = 0;
            while done < size && offset <= u64::MAX - done as u64 && done < 8
                invariant
                    size <= 8,
                    done <= size,
                    full == pl050_split_write(*old(self), offset, size, val, 0),
                    full.0 == pl050_split_write(*self, offset, size, val, done).0,
                    full.1 == latest(pl050_split_write(*self, offset, size, val, done).1, irq),
                decreases size - done,
            {
                let cur = offset + done as u64;
                let chunk = aligned_chunk_size(cur, size - done);
                proof {
                    if chunk == 8 {
                        assert(cur % 8 == 0);
                    }
                }
                let chunk_value = (val >> (done * 8) as u64) & access_mask(chunk);
                let got = self.write_aligned(cur, chunk, chunk_value);
                irq = first_some(got, irq);
                done = done + chunk;
            }
            irq
        } else {
            proof {
                if size == 8 {
                    assert(offset % 8 == 0);
                }
            }
            self.write_aligned(offset, size, val)
        }
    }
}

} // verus!
