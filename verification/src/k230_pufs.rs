//! K230 PUFS security engine, reduced to what boot-image verification
//! uses: a scatter DMA feeding the SHA-256 hash block.
//!
//! Starting the DMA asks the caller to fetch the source bytes from guest
//! memory ([`K230Pufs::begin_hash`]) and hand them back
//! ([`K230Pufs::finish_hash`]).
use vstd::prelude::*;
use sha2::Digest;
use crate::bytes::{be_value, le_bytes, le_value};
use crate::mmio::{spec_valid_mmio_access, spec_value_for_size, valid_mmio_access, value_for_size};

verus! {

pub const K230_PUFS_MMIO_SIZE: u64 = 0x0000_8000;
pub const DMA_VERSION: u64 = 0x00;
pub const DMA_FEATURE: u64 = 0x08;
pub const DMA_STATUS_0: u64 = 0x10;
pub const DMA_START: u64 = 0x20;
pub const DMA_CFG_0: u64 = 0x24;
pub const DMA_DSC_CFG_0: u64 = 0x34;
pub const DMA_DSC_CFG_1: u64 = 0x38;
pub const DMA_DSC_CFG_2: u64 = 0x3c;
pub const DMA_DSC_CFG_3: u64 = 0x40;
pub const DMA_DSC_CFG_4: u64 = 0x44;
pub const DMA_KEY_CFG_0: u64 = 0x6c;
pub const DMA_CL_CFG_0: u64 = 0x70;
pub const CRYPTO_VERSION: u64 = 0x100;
pub const CRYPTO_FEATURE: u64 = 0x108;
pub const CRYPTO_DGST_IN: u64 = 0x180;
pub const CRYPTO_DGST_OUT: u64 = 0x1c0;
pub const CRYPTO_DGST_LEN: u64 = 64;
pub const HMAC_VERSION: u64 = 0x800;
pub const HMAC_FEATURE: u64 = 0x808;
pub const HMAC_STATUS: u64 = 0x810;
pub const HMAC_CFG: u64 = 0x818;
pub const HMAC_PLEN: u64 = 0x820;
pub const HMAC_ALEN: u64 = 0x830;
pub const RT_VERSION: u64 = 0x32c0;
pub const RT_STATUS: u64 = 0x32c4;
pub const DMA_DSC_CFG_4_TAIL: u32 = 0x4000_0000;
pub const DMA_DSC_CFG_4_HEAD: u32 = 0x8000_0000;
pub const K230_PUFS_MAX_HASH_LEN: u64 = 128 * 1024 * 1024;
pub const DMA_VERSION_VALUE: u32 = 0x5044_30d6;
pub const CRYPTO_VERSION_VALUE: u32 = 0x5043_30d6;
pub const HMAC_VERSION_VALUE: u32 = 0x5048_30d6;
pub const RT_VERSION_VALUE: u32 = 0x504d_30d6;
/// Scatter-gather DMA.
pub const DMA_FEATURES: u32 = 0x1;
/// Hash and HMAC.
pub const CRYPTO_FEATURES: u32 = 0x180;
/// HMAC, SHA-2 and SM3.
pub const HMAC_FEATURES: u32 = 0xb;

/// What SHA-256 (the `sha2` crate) gives for `data`.
pub uninterp spec fn sha256(data: Seq<u8>) -> Seq<u8>;

/// `sha2::Sha256::digest`: the SHA-256 digest of `data`.
#[verifier::external_body]
fn sha256_digest(data: &[u8]) -> (r: [u8; 32])
    ensures
        r@ == sha256(data@),
{
    let hash = sha2::Sha256::digest(data);
    let mut out = [0u8; 32];
    out.copy_from_slice(&hash);
    out
}

/// The PUFS registers.
pub struct K230Pufs {
    pub dma_start: u32,
    pub dma_cfg_0: u32,
    pub dsc_cfg_0: u32,
    pub dsc_cfg_1: u32,
    pub dsc_cfg_2: u32,
    pub dsc_cfg_3: u32,
    pub dsc_cfg_4: u32,
    pub key_cfg_0: u32,
    pub cl_cfg_0: u32,
    pub hmac_cfg: u32,
    pub hmac_plen: u32,
    pub hmac_alen: u32,
    pub digest_in: [u8; 64],
    pub digest_out: [u8; 64],
    /// The message hashed so far.
    pub hash_input: Vec<u8>,
}

/// The little-endian value of `size` bytes of a 64-byte digest register
/// at byte `index` (0 when they run past its end).
pub open spec fn digest_le(bytes: Seq<u8>, index: int, size: u32) -> u64 {
    if index + size > 64 {
        0
    } else {
        le_value(bytes, index, size as nat) as u64
    }
}

/// The value of a guest read at `offset` of `size` bytes.
pub open spec fn pufs_read(s: K230Pufs, offset: u64, size: u32) -> u64 {
    if !spec_valid_mmio_access(offset, size) {
        0
    } else if offset == DMA_VERSION {
        spec_value_for_size(DMA_VERSION_VALUE as u64, size)
    } else if offset == DMA_FEATURE {
        spec_value_for_size(DMA_FEATURES as u64, size)
    } else if offset == DMA_START {
        spec_value_for_size(s.dma_start as u64, size)
    } else if offset == DMA_CFG_0 {
        spec_value_for_size(s.dma_cfg_0 as u64, size)
    } else if offset == DMA_DSC_CFG_0 {
        spec_value_for_size(s.dsc_cfg_0 as u64, size)
    } else if offset == DMA_DSC_CFG_1 {
        spec_value_for_size(s.dsc_cfg_1 as u64, size)
    } else if offset == DMA_DSC_CFG_2 {
        spec_value_for_size(s.dsc_cfg_2 as u64, size)
    } else if offset == DMA_DSC_CFG_3 {
        spec_value_for_size(s.dsc_cfg_3 as u64, size)
    } else if offset == DMA_DSC_CFG_4 {
        spec_value_for_size(s.dsc_cfg_4 as u64, size)
    } else if offset == DMA_KEY_CFG_0 {
        spec_value_for_size(s.key_cfg_0 as u64, size)
    } else if offset == DMA_CL_CFG_0 {
        spec_value_for_size(s.cl_cfg_0 as u64, size)
    } else if offset == CRYPTO_VERSION {
        spec_value_for_size(CRYPTO_VERSION_VALUE as u64, size)
    } else if offset == CRYPTO_FEATURE {
        spec_value_for_size(CRYPTO_FEATURES as u64, size)
    } else if offset == HMAC_VERSION {
        spec_value_for_size(HMAC_VERSION_VALUE as u64, size)
    } else if offset == HMAC_FEATURE {
        spec_value_for_size(HMAC_FEATURES as u64, size)
    } else if offset == HMAC_CFG {
        spec_value_for_size(s.hmac_cfg as u64, size)
    } else if offset == HMAC_PLEN {
        spec_value_for_size(s.hmac_plen as u64, size)
    } else if offset == HMAC_ALEN {
        spec_value_for_size(s.hmac_alen as u64, size)
    } else if offset == RT_VERSION {
        spec_value_for_size(RT_VERSION_VALUE as u64, size)
    } else if CRYPTO_DGST_IN <= offset < CRYPTO_DGST_IN + 64 {
        digest_le(s.digest_in@, offset - CRYPTO_DGST_IN, size)
    } else if CRYPTO_DGST_OUT <= offset < CRYPTO_DGST_OUT + 64 {
        let index = offset - CRYPTO_DGST_OUT;
        if size == 4 && index + 4 <= 64 {
            be_value(s.digest_out@, index, 4) as u64
        } else {
            digest_le(s.digest_out@, index, size)
        }
    } else {
        0
    }
}

fn read_le(bytes: &[u8; 64], index: u64, size: u32) -> (r: u64)
    requires
        size == 1 || size == 2 || size == 4,
        index < 64,
    ensures
        r == digest_le(bytes@, index as int, size),
{
    if index + size as u64 > 64 {
        return 0;
    }
    proof {
        reveal_with_fuel(le_value, 5);
    }
    let i = index as usize;
    let b0 = bytes[i] as u64;
    if size == 1 {
        return b0;
    }
    let b1 = bytes[i + 1] as u64;
    if size == 2 {
        return b0 + 256 * b1;
    }
    let b2 = bytes[i + 2] as u64;
    let b3 = bytes[i + 3] as u64;
    b0 + 256 * (b1 + 256 * (b2 + 256 * b3))
}

impl K230Pufs {
    /// The block at reset: every register and both digests zero, no
    /// message pending.
    pub fn new() -> (r: Self)
        ensures
            r.dma_start == 0 && r.dma_cfg_0 == 0 && r.dsc_cfg_0 == 0 && r.dsc_cfg_1 == 0,
            r.dsc_cfg_2 == 0 && r.dsc_cfg_3 == 0 && r.dsc_cfg_4 == 0 && r.key_cfg_0 == 0,
            r.cl_cfg_0 == 0 && r.hmac_cfg == 0 && r.hmac_plen == 0 && r.hmac_alen == 0,
            r.digest_in@ == Seq::new(64, |i: int| 0u8),
            r.digest_out@ == Seq::new(64, |i: int| 0u8),
            r.hash_input@ == Seq::<u8>::empty(),
    {
        let r = K230Pufs {
            dma_start: 0,
            dma_cfg_0: 0,
            dsc_cfg_0: 0,
            dsc_cfg_1: 0,
            dsc_cfg_2: 0,
            dsc_cfg_3: 0,
            dsc_cfg_4: 0,
            key_cfg_0: 0,
            cl_cfg_0: 0,
            hmac_cfg: 0,
            hmac_plen: 0,
            hmac_alen: 0,
            digest_in: [0u8; 64],
            digest_out: [0u8; 64],
            hash_input: Vec::new(),
        };
        proof {
            assert(r.digest_in@ =~= Seq::new(64, |i: int| 0u8));
            assert(r.digest_out@ =~= Seq::new(64, |i: int| 0u8));
        }
        r
    }

    /// A guest read of `size` bytes at `offset`.
    pub fn read_reg(&self, offset: u64, size: u32) -> (r: u64)
        ensures
            r == pufs_read(*self, offset, size),
    {
        if !valid_mmio_access(offset, size) {
            return 0;
        }
        if offset == DMA_VERSION {
            value_for_size(DMA_VERSION_VALUE as u64, size)
        } else if offset == DMA_FEATURE {
            value_for_size(DMA_FEATURES as u64, size)
        } else if offset == DMA_START {
            value_for_size(self.dma_start as u64, size)
        } else if offset == DMA_CFG_0 {
            value_for_size(self.dma_cfg_0 as u64, size)
        } else if offset == DMA_DSC_CFG_0 {
            value_for_size(self.dsc_cfg_0 as u64, size)
        } else if offset == DMA_DSC_CFG_1 {
            value_for_size(self.dsc_cfg_1 as u64, size)
        } else if offset == DMA_DSC_CFG_2 {
            value_for_size(self.dsc_cfg_2 as u64, size)
        } else if offset == DMA_DSC_CFG_3 {
            value_for_size(self.dsc_cfg_3 as u64, size)
        } else if offset == DMA_DSC_CFG_4 {
            value_for_size(self.dsc_cfg_4 as u64, size)
        } else if offset == DMA_KEY_CFG_0 {
            value_for_size(self.key_cfg_0 as u64, size)
        } else if offset == DMA_CL_CFG_0 {
            value_for_size(self.cl_cfg_0 as u64, size)
        } else if offset == CRYPTO_VERSION {
            value_for_size(CRYPTO_VERSION_VALUE as u64, size)
        } else if offset == CRYPTO_FEATURE {
            value_for_size(CRYPTO_FEATURES as u64, size)
        } else if offset == HMAC_VERSION {
            value_for_size(HMAC_VERSION_VALUE as u64, size)
        } else if offset == HMAC_FEATURE {
            value_for_size(HMAC_FEATURES as u64, size)
        } else if offset == HMAC_CFG {
            value_for_size(self.hmac_cfg as u64, size)
        } else if offset == HMAC_PLEN {
            value_for_size(self.hmac_plen as u64, size)
        } else if offset == HMAC_ALEN {
            value_for_size(self.hmac_alen as u64, size)
        } else if offset == RT_VERSION {
            value_for_size(RT_VERSION_VALUE as u64, size)
        } else if CRYPTO_DGST_IN <= offset && offset < CRYPTO_DGST_IN + 64 {
            read_le(&self.digest_in, offset - CRYPTO_DGST_IN, size)
        } else if CRYPTO_DGST_OUT <= offset && offset < CRYPTO_DGST_OUT + 64 {
            let index = offset - CRYPTO_DGST_OUT;
            if size == 4 && index + 4 <= 64 {
                crate::bytes::read_be_u32(&self.digest_out, index as usize) as u64
            } else {
                read_le(&self.digest_out, index, size)
            }
        } else {
            0
        }
    }

    /// A guest write of `size` bytes at `offset`. Returns whether it
    /// starts the DMA (bit 0 written to the start register).
    pub fn write_reg(&mut self, offset: u64, size: u32, value: u64) -> (start: bool)
        ensures
            start == (spec_valid_mmio_access(offset, size) && offset == DMA_START && (spec_value_for_size(
                value,
                size,
            ) as u32) & 1 != 0),
            final(self).hash_input == old(self).hash_input,
            final(self).digest_out == old(self).digest_out,
            spec_valid_mmio_access(offset, size) && CRYPTO_DGST_IN <= offset < CRYPTO_DGST_IN + 64
                ==> final(self).digest_in@ == old(self).digest_in@.take(offset - CRYPTO_DGST_IN)
                + le_bytes((spec_value_for_size(value, size) as u32) as nat, 4).take(size as int) + old(
                self,
            ).digest_in@.skip(offset - CRYPTO_DGST_IN + size),
            spec_valid_mmio_access(offset, size) && offset == DMA_DSC_CFG_0 ==> final(self).dsc_cfg_0
                == spec_value_for_size(value, size) as u32,
            spec_valid_mmio_access(offset, size) && offset == DMA_DSC_CFG_2 ==> final(self).dsc_cfg_2
                == spec_value_for_size(value, size) as u32,
            spec_valid_mmio_access(offset, size) && offset == DMA_DSC_CFG_4 ==> final(self).dsc_cfg_4
                == spec_value_for_size(value, size) as u32,
            spec_valid_mmio_access(offset, size) && offset == DMA_START ==> final(self).dma_start
                == spec_value_for_size(value, size) as u32,
            !spec_valid_mmio_access(offset, size) ==> final(self).dsc_cfg_0 == old(self).dsc_cfg_0
                && final(self).dsc_cfg_2 == old(self).dsc_cfg_2 && final(self).dsc_cfg_4 == old(
                self,
            ).dsc_cfg_4 && final(self).digest_in == old(self).digest_in,
    {
        if !valid_mmio_access(offset, size) {
            return false;
        }
        let v = value_for_size(value, size) as u32;
        let mut start = false;
        if offset == DMA_START {
            self.dma_start = v;
            start = v & 1 != 0;
        } else if offset == DMA_CFG_0 {
            self.dma_cfg_0 = v;
        } else if offset == DMA_DSC_CFG_0 {
            self.dsc_cfg_0 = v;
        } else if offset == DMA_DSC_CFG_1 {
            self.dsc_cfg_1 = v;
        } else if offset == DMA_DSC_CFG_2 {
            self.dsc_cfg_2 = v;
        } else if offset == DMA_DSC_CFG_3 {
            self.dsc_cfg_3 = v;
        } else if offset == DMA_DSC_CFG_4 {
            self.dsc_cfg_4 = v;
        } else if offset == DMA_KEY_CFG_0 {
            self.key_cfg_0 = v;
        } else if offset == DMA_CL_CFG_0 {
            self.cl_cfg_0 = v;
        } else if offset == HMAC_CFG {
            self.hmac_cfg = v;
        } else if offset == HMAC_PLEN {
            self.hmac_plen = v;
        } else if offset == HMAC_ALEN {
            self.hmac_alen = v;
        } else if CRYPTO_DGST_IN <= offset && offset < CRYPTO_DGST_IN + 64 {
            let index = (offset - CRYPTO_DGST_IN) as usize;
            let bytes = crate::bytes::u32_to_le(v);
            let len = size as usize;
            proof {
                crate::bytes::lemma_le_bytes_len(v as nat, 4);
                assert(offset % (size as u64) == 0);
                if size == 4 {
                    assert(offset % 4 == 0);
                    assert(index % 4 == 0) by (nonlinear_arith)
                        requires
                            offset % 4 == 0,
                            index == offset - 384,
                            offset >= 384,
                    ;
                } else if size == 2 {
                    assert(offset % 2 == 0);
                    assert(index % 2 == 0) by (nonlinear_arith)
                        requires
                            offset % 2 == 0,
                            index == offset - 384,
                            offset >= 384,
                    ;
                }
                assert(index + len <= 64);
            }
            let mut k: usize = 0;
            let ghost before = self.digest_in@;
            while k < len
                invariant
                    k <= len <= 4,
                    index + len <= 64,
                    bytes@.len() == 4,
                    self.digest_in@.len() == 64,
                    self.hash_input == old(self).hash_input,
                    self.digest_out == old(self).digest_out,
                    self.dsc_cfg_0 == old(self).dsc_cfg_0,
                    self.dsc_cfg_2 == old(self).dsc_cfg_2,
                    self.dsc_cfg_4 == old(self).dsc_cfg_4,
                    self.dma_start == old(self).dma_start,
                    forall|j: int| 0 <= j < 64 ==> #[trigger] self.digest_in@[j] == (if index <= j < index + k {
                        bytes@[j - index]
                    } else {
                        before[j]
                    }),
                decreases len - k,
            {
                self.digest_in[index + k] = bytes[k];
                k = k + 1;
            }
            proof {
                assert(self.digest_in@ =~= before.take(index as int) + bytes@.take(len as int) + before.skip(index + len));
            }
        }
        start
    }

    /// The DMA of a hash step begins: a head descriptor restarts the
    /// message. Returns the guest address and length of the bytes to
    /// fetch, or `None` when the message would exceed 128 MiB.
    pub fn begin_hash(&mut self) -> (r: Option<(u32, u32)>)
        ensures
            ({
                let s = *old(self);
                let input = if s.dsc_cfg_4 & DMA_DSC_CFG_4_HEAD != 0 { Seq::empty() } else { s.hash_input@ };
                &&& final(self).hash_input@ == input
                &&& *final(self) == (K230Pufs { hash_input: final(self).hash_input, ..s })
                &&& r == (if input.len() + s.dsc_cfg_2 > K230_PUFS_MAX_HASH_LEN {
                    None
                } else {
                    Some((s.dsc_cfg_0, s.dsc_cfg_2))
                })
            }),
    {
        if self.dsc_cfg_4 & DMA_DSC_CFG_4_HEAD != 0 {
            self.hash_input.clear();
        }
        if self.hash_input.len() as u128 + self.dsc_cfg_2 as u128 > K230_PUFS_MAX_HASH_LEN as u128 {
            return None;
        }
        Some((self.dsc_cfg_0, self.dsc_cfg_2))
    }

    /// Store a finished digest: its 32 bytes, then zeros.
    pub fn store_digest(&mut self, digest: [u8; 32])
        ensures
            final(self).digest_out@ == digest@ + Seq::new(32, |i: int| 0u8),
            final(self).hash_input == old(self).hash_input,
            *final(self) == (K230Pufs { digest_out: final(self).digest_out, ..*old(self) }),
    {
        let mut k: usize = 0;
        while k < 64
            invariant
                k <= 64,
                self.digest_out@.len() == 64,
                self.hash_input == old(self).hash_input,
                *self == (K230Pufs { digest_out: self.digest_out, ..*old(self) }),
                forall|j: int| 0 <= j < k ==> #[trigger] self.digest_out@[j] == (if j < 32 {
                    digest@[j]
                } else {
                    0u8
                }),
            decreases 64 - k,
        {
            let b = if k < 32 {
                digest[k]
            } else {
                0
            };
            self.digest_out[k] = b;
            k = k + 1;
        }
        proof {
            assert(self.digest_out@ =~= digest@ + Seq::new(32, |i: int| 0u8));
        }
    }

    /// The DMA of a hash step delivered `chunk`: it extends the message,
    /// whose length shows in the ALEN register; a tail descriptor ends the
    /// message, stores its SHA-256 digest and starts a new one.
    pub fn finish_hash(&mut self, chunk: &[u8])
        ensures
            ({
                let msg = old(self).hash_input@ + chunk@;
                &&& final(self).hmac_alen == msg.len() as u32
                &&& old(self).dsc_cfg_4 & DMA_DSC_CFG_4_TAIL != 0 ==> final(self).digest_out@ == sha256(msg)
                    + Seq::new(32, |i: int| 0u8) && final(self).hash_input@ == Seq::<u8>::empty()
                &&& old(self).dsc_cfg_4 & DMA_DSC_CFG_4_TAIL == 0 ==> final(self).digest_out == old(
                    self,
                ).digest_out && final(self).hash_input@ == msg
                &&& *final(self) == (K230Pufs {
                    hash_input: final(self).hash_input,
                    digest_out: final(self).digest_out,
                    hmac_alen: final(self).hmac_alen,
                    ..*old(self)
                })
            }),
    {
        let mut k: usize = 0;
        let ghost before = self.hash_input@;
        while k < chunk.len()
            invariant
                k <= chunk@.len(),
                self.hash_input@ == before + chunk@.take(k as int),
                self.digest_out == old(self).digest_out,
                self.dsc_cfg_4 == old(self).dsc_cfg_4,
                before == old(self).hash_input@,
                *self == (K230Pufs { hash_input: self.hash_input, ..*old(self) }),
            decreases chunk.len() - k,
        {
            self.hash_input.push(chunk[k]);
            k = k + 1;
            proof {
                assert(self.hash_input@ =~= before + chunk@.take(k as int));
            }
        }
        proof {
            assert(chunk@.take(chunk@.len() as int) =~= chunk@);
        }
        let alen = self.hash_input.len() as u32;
        if self.dsc_cfg_4 & DMA_DSC_CFG_4_TAIL != 0 {
            let digest = sha256_digest(self.hash_input.as_slice());
            self.store_digest(digest);
            self.hash_input.clear();
        }
        self.hmac_alen = alen;
    }

    /// Reset: registers and digests to zero, no message pending.
    pub fn reset_runtime(&mut self)
        ensures
            final(self).dma_start == 0 && final(self).dma_cfg_0 == 0 && final(self).dsc_cfg_0 == 0,
            final(self).dsc_cfg_1 == 0 && final(self).dsc_cfg_2 == 0 && final(self).dsc_cfg_3 == 0,
            final(self).dsc_cfg_4 == 0 && final(self).key_cfg_0 == 0 && final(self).cl_cfg_0 == 0,
            final(self).hmac_cfg == 0 && final(self).hmac_plen == 0 && final(self).hmac_alen == 0,
            final(self).digest_in@ == Seq::new(64, |i: int| 0u8),
            final(self).digest_out@ == Seq::new(64, |i: int| 0u8),
            final(self).hash_input@ == Seq::<u8>::empty(),
    {
        *self = K230Pufs::new();
    }
}

} // verus!
