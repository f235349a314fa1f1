//! K230 GSDMA and gzip decompressor, reduced to the path U-Boot's
//! `unzip` uses: two linked-list (LLT) DMA chains, one feeding the
//! compressed stream in and one taking the output back to guest memory.
//!
//! Walking a chain alternates descriptor fetches from guest memory with
//! decisions; [`LltWalk`] makes the decisions and the caller does the
//! fetching and copying.
use vstd::prelude::*;
use crate::gzip::{gunzip_limited, gunzip_prefix};
use crate::mmio::{spec_valid_mmio_access, spec_value_for_size, valid_mmio_access, value_for_size};

verus! {

pub const K230_GZIP_DMA_MMIO_SIZE: u64 = 0x0000_c000;
pub const GSDMA_DMA_CH_EN: u64 = 0x00;
pub const GSDMA_DMA_INT_MASK: u64 = 0x04;
pub const GSDMA_DMA_INT_STAT: u64 = 0x08;
pub const GSDMA_DMA_CFG: u64 = 0x0c;
pub const GSDMA_DMA_WEIGHT: u64 = 0x3c;
pub const SDMA_CH_CFG_BASE: u64 = 0x50;
pub const SDMA_CH_LENGTH: u64 = 0x30;
pub const SDMA_CHANNELS: u64 = 8;
pub const SDMA_CH_CTL: u64 = 0x00;
pub const SDMA_CH_STATUS: u64 = 0x04;
pub const SDMA_CH_CFG: u64 = 0x08;
pub const SDMA_CH_USR_DATA: u64 = 0x0c;
pub const SDMA_CH_LLT_SADDR: u64 = 0x10;
pub const SDMA_CH_CURRENT_LLT: u64 = 0x14;
pub const UGZIP_DECOMP_START: u64 = 0x8000;
pub const UGZIP_GZIP_SRC_SIZE: u64 = 0x8004;
pub const UGZIP_DMA_OUT_SIZE: u64 = 0x8008;
pub const UGZIP_DECOMP_INTSTAT: u64 = 0x800c;
pub const ZIP_READ_CHANNEL: usize = 0;
pub const ZIP_WRITE_CHANNEL: usize = 1;
pub const GZIP_SIZE_VALID: u32 = 0x8000_0000;
pub const GZIP_DONE_INT: u32 = 0x400;
pub const GSDMA_WRITE_DONE_INT: u32 = 0x2;
pub const MAX_GZIP_INPUT_LEN: u64 = 128 * 1024 * 1024;
pub const MAX_GZIP_OUTPUT_LEN: u64 = 256 * 1024 * 1024;

/// One SDMA channel's registers.
#[derive(Clone, Copy, Debug, PartialEq, Eq, Structural)]
pub struct SdmaChannel {
    pub ctl: u32,
    pub status: u32,
    pub cfg: u32,
    pub usr_data: u32,
    pub llt_saddr: u32,
    pub current_llt: u32,
}

/// The channel and register addressed by `offset` in the channel window.
pub open spec fn channel_of(offset: u64) -> Option<(int, u64)> {
    if offset < SDMA_CH_CFG_BASE {
        None
    } else {
        let local = offset - SDMA_CH_CFG_BASE;
        if local / (SDMA_CH_LENGTH as int) >= SDMA_CHANNELS {
            None
        } else {
            Some((local / (SDMA_CH_LENGTH as int), (local % (SDMA_CH_LENGTH as int)) as u64))
        }
    }
}

/// A channel register's value.
pub open spec fn channel_reg(c: SdmaChannel, reg: u64) -> u32 {
    if reg == SDMA_CH_CTL {
        c.ctl
    } else if reg == SDMA_CH_STATUS {
        c.status
    } else if reg == SDMA_CH_CFG {
        c.cfg
    } else if reg == SDMA_CH_USR_DATA {
        c.usr_data
    } else if reg == SDMA_CH_LLT_SADDR {
        c.llt_saddr
    } else if reg == SDMA_CH_CURRENT_LLT {
        c.current_llt
    } else {
        0
    }
}

/// A channel after writing `value` to register `reg`; a new chain start
/// is also the current descriptor.
pub open spec fn channel_write(c: SdmaChannel, reg: u64, value: u32) -> SdmaChannel {
    if reg == SDMA_CH_CTL {
        SdmaChannel { ctl: value, ..c }
    } else if reg == SDMA_CH_STATUS {
        SdmaChannel { status: value, ..c }
    } else if reg == SDMA_CH_CFG {
        SdmaChannel { cfg: value, ..c }
    } else if reg == SDMA_CH_USR_DATA {
        SdmaChannel { usr_data: value, ..c }
    } else if reg == SDMA_CH_LLT_SADDR {
        SdmaChannel { llt_saddr: value, current_llt: value, ..c }
    } else if reg == SDMA_CH_CURRENT_LLT {
        SdmaChannel { current_llt: value, ..c }
    } else {
        c
    }
}

fn decode_channel(offset: u64) -> (r: Option<(usize, u64)>)
    ensures
        match channel_of(offset) {
            Some((ch, reg)) => r == Some((ch as usize, reg)) && ch < 8,
            None => r is None,
        },
{
    if offset < SDMA_CH_CFG_BASE {
        return None;
    }
    let local = offset - SDMA_CH_CFG_BASE;
    let channel = local / SDMA_CH_LENGTH;
    if channel >= SDMA_CHANNELS {
        return None;
    }
    Some((channel as usize, local % SDMA_CH_LENGTH))
}

fn read_channel(c: &SdmaChannel, reg: u64) -> (r: u32)
    ensures
        r == channel_reg(*c, reg),
{
    if reg == SDMA_CH_CTL {
        c.ctl
    } else if reg == SDMA_CH_STATUS {
        c.status
    } else if reg == SDMA_CH_CFG {
        c.cfg
    } else if reg == SDMA_CH_USR_DATA {
        c.usr_data
    } else if reg == SDMA_CH_LLT_SADDR {
        c.llt_saddr
    } else if reg == SDMA_CH_CURRENT_LLT {
        c.current_llt
    } else {
        0
    }
}

fn write_channel(c: SdmaChannel, reg: u64, value: u32) -> (r: SdmaChannel)
    ensures
        r == channel_write(c, reg, value),
{
    if reg == SDMA_CH_CTL {
        SdmaChannel { ctl: value, ..c }
    } else if reg == SDMA_CH_STATUS {
        SdmaChannel { status: value, ..c }
    } else if reg == SDMA_CH_CFG {
        SdmaChannel { cfg: value, ..c }
    } else if reg == SDMA_CH_USR_DATA {
        SdmaChannel { usr_data: value, ..c }
    } else if reg == SDMA_CH_LLT_SADDR {
        SdmaChannel { llt_saddr: value, current_llt: value, ..c }
    } else if reg == SDMA_CH_CURRENT_LLT {
        SdmaChannel { current_llt: value, ..c }
    } else {
        c
    }
}

/// The GSDMA and gzip registers.
pub struct K230GzipDma {
    pub dma_ch_en: u32,
    pub dma_int_mask: u32,
    pub dma_int_stat: u32,
    pub dma_cfg: u32,
    pub dma_weight: u32,
    pub channels: [SdmaChannel; 8],
    pub decomp_start: u32,
    pub gzip_src_size: u32,
    pub dma_out_size: u32,
    pub decomp_intstat: u32,
}

/// The value of a guest read of `size` bytes at `offset`.
pub open spec fn gzip_dma_read(s: K230GzipDma, offset: u64, size: u32) -> u64 {
    if !spec_valid_mmio_access(offset, size) {
        0
    } else {
        let v: u32 = if offset == GSDMA_DMA_CH_EN {
            s.dma_ch_en
        } else if offset == GSDMA_DMA_INT_MASK {
            s.dma_int_mask
        } else if offset == GSDMA_DMA_INT_STAT {
            s.dma_int_stat
        } else if offset == GSDMA_DMA_CFG {
            s.dma_cfg
        } else if offset == GSDMA_DMA_WEIGHT {
            s.dma_weight
        } else if offset == UGZIP_DECOMP_START {
            s.decomp_start
        } else if offset == UGZIP_GZIP_SRC_SIZE {
            s.gzip_src_size
        } else if offset == UGZIP_DMA_OUT_SIZE {
            s.dma_out_size
        } else if offset == UGZIP_DECOMP_INTSTAT {
            s.decomp_intstat
        } else {
            match channel_of(offset) {
                Some((ch, reg)) => channel_reg(s.channels@[ch], reg),
                None => 0,
            }
        };
        spec_value_for_size(v as u64, size)
    }
}

/// The registers after a guest write of `size` bytes at `offset`
/// (interrupt status registers are write-one-to-clear).
pub open spec fn gzip_dma_write(s: K230GzipDma, offset: u64, size: u32, val: u64) -> K230GzipDma {
    let v = spec_value_for_size(val, size) as u32;
    if !spec_valid_mmio_access(offset, size) {
        s
    } else if offset == GSDMA_DMA_CH_EN {
        K230GzipDma { dma_ch_en: v, ..s }
    } else if offset == GSDMA_DMA_INT_MASK {
        K230GzipDma { dma_int_mask: v, ..s }
    } else if offset == GSDMA_DMA_INT_STAT {
        K230GzipDma { dma_int_stat: s.dma_int_stat & !v, ..s }
    } else if offset == GSDMA_DMA_CFG {
        K230GzipDma { dma_cfg: v, ..s }
    } else if offset == GSDMA_DMA_WEIGHT {
        K230GzipDma { dma_weight: v, ..s }
    } else if offset == UGZIP_DECOMP_START {
        K230GzipDma { decomp_start: v, ..s }
    } else if offset == UGZIP_GZIP_SRC_SIZE {
        K230GzipDma { gzip_src_size: v, ..s }
    } else if offset == UGZIP_DMA_OUT_SIZE {
        K230GzipDma { dma_out_size: v, ..s }
    } else if offset == UGZIP_DECOMP_INTSTAT {
        K230GzipDma { decomp_intstat: s.decomp_intstat & !v, ..s }
    } else {
        s
    }
}

/// The registers outside the channel window.
pub open spec fn named_reg(offset: u64) -> bool {
    offset == GSDMA_DMA_CH_EN || offset == GSDMA_DMA_INT_MASK || offset == GSDMA_DMA_INT_STAT
        || offset == GSDMA_DMA_CFG || offset == GSDMA_DMA_WEIGHT || offset == UGZIP_DECOMP_START
        || offset == UGZIP_GZIP_SRC_SIZE || offset == UGZIP_DMA_OUT_SIZE || offset
        == UGZIP_DECOMP_INTSTAT
}

/// What a decompression run reads: the two chain starts, the compressed
/// size (without its valid flag) and the output size.
#[derive(Clone, Copy, Debug, PartialEq, Eq, Structural)]
pub struct DecompressRequest {
    pub src_llt: u32,
    pub dst_llt: u32,
    pub src_size: u32,
    pub out_size: u32,
}

impl K230GzipDma {
    /// Every register zero.
    pub fn new() -> (r: Self)
        ensures
            r.dma_ch_en == 0 && r.dma_int_mask == 0 && r.dma_int_stat == 0 && r.dma_cfg == 0,
            r.dma_weight == 0 && r.decomp_start == 0 && r.gzip_src_size == 0,
            r.dma_out_size == 0 && r.decomp_intstat == 0,
            forall|i: int| 0 <= i < 8 ==> #[trigger] r.channels@[i] == (SdmaChannel {
                ctl: 0,
                status: 0,
                cfg: 0,
                usr_data: 0,
                llt_saddr: 0,
                current_llt: 0,
            }),
    {
        let zero = SdmaChannel { ctl: 0, status: 0, cfg: 0, usr_data: 0, llt_saddr: 0, current_llt: 0 };
        K230GzipDma {
            dma_ch_en: 0,
            dma_int_mask: 0,
            dma_int_stat: 0,
            dma_cfg: 0,
            dma_weight: 0,
            channels: [zero; 8],
            decomp_start: 0,
            gzip_src_size: 0,
            dma_out_size: 0,
            decomp_intstat: 0,
        }
    }

    /// A guest read of `size` bytes at `offset`.
    pub fn read_reg(&self, offset: u64, size: u32) -> (r: u64)
        ensures
            r == gzip_dma_read(*self, offset, size),
    {
        if !valid_mmio_access(offset, size) {
            return 0;
        }
        let v: u32 = if offset == GSDMA_DMA_CH_EN {
            self.dma_ch_en
        } else if offset == GSDMA_DMA_INT_MASK {
            self.dma_int_mask
        } else if offset == GSDMA_DMA_INT_STAT {
            self.dma_int_stat
        } else if offset == GSDMA_DMA_CFG {
            self.dma_cfg
        } else if offset == GSDMA_DMA_WEIGHT {
            self.dma_weight
        } else if offset == UGZIP_DECOMP_START {
            self.decomp_start
        } else if offset == UGZIP_GZIP_SRC_SIZE {
            self.gzip_src_size
        } else if offset == UGZIP_DMA_OUT_SIZE {
            self.dma_out_size
        } else if offset == UGZIP_DECOMP_INTSTAT {
            self.decomp_intstat
        } else {
            match decode_channel(offset) {
                Some((ch, reg)) => read_channel(&self.channels[ch], reg),
                None => 0,
            }
        };
        value_for_size(v as u64, size)
    }

    /// A guest write of `size` bytes at `offset`. Returns whether it
    /// starts a decompression (bit 0 written to the start register).
    pub fn write_reg(&mut self, offset: u64, size: u32, val: u64) -> (start: bool)
        ensures
            start == (spec_valid_mmio_access(offset, size) && offset == UGZIP_DECOMP_START && (
            spec_value_for_size(val, size) as u32) & 1 != 0),
            ({
                let w = gzip_dma_write(*old(self), offset, size, val);
                let v = spec_value_for_size(val, size) as u32;
                &&& final(self).dma_ch_en == w.dma_ch_en && final(self).dma_int_mask == w.dma_int_mask
                &&& final(self).dma_int_stat == w.dma_int_stat && final(self).dma_cfg == w.dma_cfg
                &&& final(self).dma_weight == w.dma_weight && final(self).decomp_start == w.decomp_start
                &&& final(self).gzip_src_size == w.gzip_src_size && final(self).dma_out_size
                    == w.dma_out_size
                &&& final(self).decomp_intstat == w.decomp_intstat
                &&& if spec_valid_mmio_access(offset, size) && !named_reg(offset) && channel_of(offset) is Some {
                    let (ch, reg) = channel_of(offset)->0;
                    final(self).channels@ == old(self).channels@.update(
                        ch,
                        channel_write(old(self).channels@[ch], reg, v),
                    )
                } else {
                    final(self).channels == old(self).channels
                }
            }),
    {
        if !valid_mmio_access(offset, size) {
            return false;
        }
        let v = value_for_size(val, size) as u32;
        let mut start = false;
        if offset == GSDMA_DMA_CH_EN {
            self.dma_ch_en = v;
        } else if offset == GSDMA_DMA_INT_MASK {
            self.dma_int_mask = v;
        } else if offset == GSDMA_DMA_INT_STAT {
            self.dma_int_stat = self.dma_int_stat & !v;
        } else if offset == GSDMA_DMA_CFG {
            self.dma_cfg = v;
        } else if offset == GSDMA_DMA_WEIGHT {
            self.dma_weight = v;
        } else if offset == UGZIP_DECOMP_START {
            self.decomp_start = v;
            start = v & 1 != 0;
        } else if offset == UGZIP_GZIP_SRC_SIZE {
            self.gzip_src_size = v;
        } else if offset == UGZIP_DMA_OUT_SIZE {
            self.dma_out_size = v;
        } else if offset == UGZIP_DECOMP_INTSTAT {
            self.decomp_intstat = self.decomp_intstat & !v;
        } else {
            match decode_channel(offset) {
                Some((ch, reg)) => {
                    let c = write_channel(self.channels[ch], reg, v);
                    self.channels[ch] = c;
                },
                None => {},
            }
        }
        start
    }

    /// What a decompression run works on.
    pub fn decompress_request(&self) -> (r: DecompressRequest)
        ensures
            r == (DecompressRequest {
                src_llt: self.channels@[ZIP_READ_CHANNEL as int].llt_saddr,
                dst_llt: self.channels@[ZIP_WRITE_CHANNEL as int].llt_saddr,
                src_size: self.gzip_src_size & !GZIP_SIZE_VALID,
                out_size: self.dma_out_size,
            }),
    {
        DecompressRequest {
            src_llt: self.channels[ZIP_READ_CHANNEL].llt_saddr,
            dst_llt: self.channels[ZIP_WRITE_CHANNEL].llt_saddr,
            src_size: self.gzip_src_size & !GZIP_SIZE_VALID,
            out_size: self.dma_out_size,
        }
    }

    /// A run ended: the write DMA always reports done; the decompressor
    /// reports done when the run succeeded.
    pub fn complete_decompress(&mut self, ok: bool)
        ensures
            final(self).dma_int_stat == old(self).dma_int_stat | GSDMA_WRITE_DONE_INT,
            final(self).decomp_intstat == (if ok {
                old(self).decomp_intstat | GZIP_DONE_INT
            } else {
                old(self).decomp_intstat
            }),
            final(self).channels == old(self).channels,
            final(self).gzip_src_size == old(self).gzip_src_size,
            final(self).dma_out_size == old(self).dma_out_size,
    {
        self.dma_int_stat = self.dma_int_stat | GSDMA_WRITE_DONE_INT;
        if ok {
            self.decomp_intstat = self.decomp_intstat | GZIP_DONE_INT;
        }
    }

    /// Reset: every register zero.
    pub fn reset_runtime(&mut self)
        ensures
            final(self).dma_int_stat == 0 && final(self).decomp_intstat == 0,
            final(self).gzip_src_size == 0 && final(self).dma_out_size == 0,
    {
        *self = K230GzipDma::new();
    }
}

/// Whether the sizes of a run are within what the model accepts.
pub fn transfer_sizes_ok(req: DecompressRequest) -> (r: bool)
    ensures
        r == (req.src_size <= MAX_GZIP_INPUT_LEN && req.out_size <= MAX_GZIP_OUTPUT_LEN),
{
    (req.src_size as u64) <= MAX_GZIP_INPUT_LEN && (req.out_size as u64) <= MAX_GZIP_OUTPUT_LEN
}

/// The compressed stream as the decoder sees it: a compression-method
/// byte of 9 (the hardware's value) is read as deflate (8).
pub open spec fn patched_stream(data: Seq<u8>) -> Seq<u8> {
    if data.len() > 2 && data[2] == 0x09 {
        data.update(2, 0x08)
    } else {
        data
    }
}

/// Decompress `compressed`, keeping at most `out_size` bytes of output;
/// `None` when the stream does not decode.
pub fn gzip_payload(compressed: &[u8], out_size: u32) -> (r: Option<Vec<u8>>)
    ensures
        match gunzip_prefix(patched_stream(compressed@), out_size as nat) {
            Some(out) => r matches Some(v) && v@ == out,
            None => r is None,
        },
{
    let mut data: Vec<u8> = Vec::new();
    let mut i: usize = 0;
    while i < compressed.len()
        invariant
            i <= compressed@.len(),
            data@ == compressed@.take(i as int),
        decreases compressed.len() - i,
    {
        data.push(compressed[i]);
        i = i + 1;
        proof {
            assert(data@ =~= compressed@.take(i as int));
        }
    }
    proof {
        assert(compressed@.take(compressed@.len() as int) =~= compressed@);
    }
    if data.len() > 2 && data[2] == 0x09 {
        data.set(2, 0x08);
    }
    proof {
        assert(data@ =~= patched_stream(compressed@));
    }
    match gunzip_limited(data.as_slice(), out_size as u64) {
        Some(mut out) => {
            out.truncate(out_size as usize);
            Some(out)
        },
        None => None,
    }
}

/// A linked-list DMA descriptor (the words the engine uses).
#[derive(Clone, Copy, Debug, PartialEq, Eq, Structural)]
pub struct LltDescriptor {
    pub src_addr: u32,
    pub line_size: u32,
    pub dst_addr: u32,
    pub next_llt_addr: u32,
}

impl LltDescriptor {
    /// The descriptor held by the six words at its address.
    pub fn from_words(words: [u32; 6]) -> (r: Self)
        ensures
            r == (LltDescriptor {
                src_addr: words@[1],
                line_size: words@[2],
                dst_addr: words@[4],
                next_llt_addr: words@[5],
            }),
    {
        LltDescriptor { src_addr: words[1], line_size: words[2], dst_addr: words[4], next_llt_addr: words[5] }
    }
}

/// Why a chain walk fails.
#[derive(Clone, Copy, Debug, PartialEq, Eq, Structural)]
pub enum LltError {
    /// A descriptor address came round again.
    Cyclic,
    /// A descriptor moves no bytes.
    ZeroLength,
    /// The chain ended before all output was written.
    Truncated,
}

/// A walk along a descriptor chain moving `total` bytes.
pub struct LltWalk {
    /// The next descriptor's address (0 ends the chain).
    pub next: u32,
    /// Bytes moved so far.
    pub done: u64,
    pub total: u64,
    /// Descriptor addresses visited, in order.
    pub seen: Vec<u32>,
}

impl LltWalk {
    /// No address visited twice, and no more than the total moved.
    pub open spec fn wf(&self) -> bool {
        &&& self.done <= self.total
        &&& forall|i: int, j: int| 0 <= i < j < self.seen@.len() ==> self.seen@[i] != self.seen@[j]
    }

    /// A walk starting at `llt_addr`.
    pub fn new(llt_addr: u32, total: u64) -> (r: Self)
        ensures
            r.wf(),
            r.next == llt_addr && r.done == 0 && r.total == total && r.seen@ == Seq::<u32>::empty(),
    {
        LltWalk { next: llt_addr, done: 0, total, seen: Vec::new() }
    }

    /// The address of the next descriptor to fetch, while the chain goes
    /// on and bytes remain.
    pub fn pending(&self) -> (r: Option<u32>)
        ensures
            r == (if self.next != 0 && self.done < self.total { Some(self.next) } else { None }),
    {
        if self.next != 0 && self.done < self.total {
            Some(self.next)
        } else {
            None
        }
    }

    /// Take the fetched descriptor of the pending address: the bytes it
    /// moves (the rest, at most its line size) with its source and
    /// destination. Fails on a repeated address or an empty descriptor.
    pub fn step(&mut self, desc: LltDescriptor) -> (r: Result<(u32, u32, u64), LltError>)
        requires
            old(self).wf(),
            old(self).next != 0 && old(self).done < old(self).total,
        ensures
            final(self).wf(),
            final(self).total == old(self).total,
            old(self).seen@.contains(old(self).next) ==> r == Err::<(u32, u32, u64), LltError>(
                LltError::Cyclic,
            ),
            !old(self).seen@.contains(old(self).next) && desc.line_size == 0 ==> r == Err::<
                (u32, u32, u64),
                LltError,
            >(LltError::ZeroLength),
            ({
                let remaining = old(self).total - old(self).done;
                let chunk = if remaining <= desc.line_size { remaining } else { desc.line_size as int };
                !old(self).seen@.contains(old(self).next) && desc.line_size != 0 ==> r == Ok::<
                    (u32, u32, u64),
                    LltError,
                >((desc.src_addr, desc.dst_addr, chunk as u64)) && final(self).done == old(self).done
                    + chunk && final(self).next == desc.next_llt_addr && final(self).seen@ == old(
                    self,
                ).seen@.push(old(self).next)
            }),
    {
        let mut k: usize = 0;
        while k < self.seen.len()
            invariant
                k <= self.seen@.len(),
                self.wf(),
                forall|j: int| 0 <= j < k ==> self.seen@[j] != self.next,
            decreases self.seen.len() - k,
        {
            if self.seen[k] == self.next {
                return Err(LltError::Cyclic);
            }
            k = k + 1;
        }
        let addr = self.next;
        self.seen.push(addr);
        let remaining = self.total - self.done;
        let chunk = if remaining <= desc.line_size as u64 {
            remaining
        } else {
            desc.line_size as u64
        };
        if chunk == 0 {
            return Err(LltError::ZeroLength);
        }
        self.done = self.done + chunk;
        self.next = desc.next_llt_addr;
        Ok((desc.src_addr, desc.dst_addr, chunk))
    }

    /// A write walk must have moved every byte.
    pub fn finish_write(&self) -> (r: Result<(), LltError>)
        ensures
            r == (if self.done < self.total { Err::<(), LltError>(LltError::Truncated) } else { Ok(()) }),
    {
        if self.done < self.total {
            Err(LltError::Truncated)
        } else {
            Ok(())
        }
    }
}

} // verus!
