//! MIPS coherent processing system: the Coherence Manager global
//! configuration registers (GCR) and the Cluster Power Controller (CPC).
use vstd::prelude::*;

verus! {

pub const GCR_MAX_VPS: usize = 256;
pub const CM_RESET_VEC: u64 = 0x1FC0_0000;
pub const CLCB_OFS: u64 = 0x2000;
pub const CORE_REG_STRIDE: u64 = 0x100;
pub const GCR_CONFIG_OFS: u64 = 0x0000;
pub const GCR_BASE_OFS: u64 = 0x0008;
pub const GCR_REV_OFS: u64 = 0x0030;
pub const GCR_CPC_STATUS_OFS: u64 = 0x00F0;
pub const GCR_L2_CONFIG_OFS: u64 = 0x0130;
pub const GCR_L2_CONFIG_BYPASS_MSK: u64 = 0x10_0000;
pub const GCR_BASE_GCRBASE_MSK: u64 = 0xFFFF_FFFF_8000;
pub const GCR_CPC_BASE_MSK: u64 = 0xFFFF_FFFF_8001;
pub const GCR_CL_RESET_BASE_MSK: u64 = 0xFFFF_FFFF_FFFF_F000;
/// The reset vector a VP starts from: `CM_RESET_VEC` under the
/// reset-base mask.
pub const GCR_DEFAULT_RESET_BASE: u64 = 0x1FC0_0000;

/// Why a GCR configuration cannot be realized.
#[derive(Debug, Clone, Copy, PartialEq, Eq, Structural)]
pub enum CmgcrConfigError {
    /// The cluster has no virtual processor.
    NoVps,
    /// More virtual processors than the GCR has reset-base registers.
    TooManyVps { num_vps: u32, max: u32 },
}

/// The Coherence Manager GCR registers.
pub struct Cmgcr {
    pub gcr_rev: i32,
    pub cluster_id: u32,
    pub num_vps: u32,
    pub num_hart: u32,
    pub num_core: u32,
    pub gcr_base: u64,
    pub cpc_base: u64,
    pub has_cpc: bool,
    /// The reset vector of each virtual processor.
    pub reset_base: [u64; 256],
}

/// The value of the access mask of `size` bytes applied to `v` (8 and
/// other sizes keep all bits).
pub open spec fn gcr_sized(v: u64, size: u32) -> u64 {
    if size == 1 {
        v & 0xff
    } else if size == 2 {
        v & 0xffff
    } else if size == 4 {
        v & 0xffff_ffff
    } else {
        v
    }
}

fn sized(v: u64, size: u32) -> (r: u64)
    ensures
        r == gcr_sized(v, size),
{
    if size == 1 {
        v & 0xff
    } else if size == 2 {
        v & 0xffff
    } else if size == 4 {
        v & 0xffff_ffff
    } else {
        v
    }
}

/// The full-width value of the GCR register at `offset`.
pub open spec fn gcr_reg(s: Cmgcr, offset: u64) -> u64 {
    if offset == GCR_BASE_OFS {
        s.gcr_base
    } else if offset == GCR_REV_OFS {
        s.gcr_rev as u64
    } else if offset == GCR_CPC_STATUS_OFS {
        if s.has_cpc { 1 } else { 0 }
    } else if offset == GCR_L2_CONFIG_OFS {
        GCR_L2_CONFIG_BYPASS_MSK
    } else {
        0
    }
}

/// `offset` is the reset-base register of hart `h` of core `c`.
pub open spec fn clcb_hit(s: Cmgcr, offset: u64, c: int, h: int) -> bool {
    &&& 0 <= c < s.num_core
    &&& 0 <= h < s.num_hart
    &&& CLCB_OFS + c * CORE_REG_STRIDE + h * 8 == offset
}

/// `(c, h)` is the first hit in core-major order.
pub open spec fn clcb_first(s: Cmgcr, offset: u64, c: int, h: int) -> bool {
    &&& clcb_hit(s, offset, c, h)
    &&& forall|c2: int, h2: int|
        (c2 < c || (c2 == c && h2 < h)) ==> !#[trigger] clcb_hit(s, offset, c2, h2)
}

/// The CPC base the GCR base implies (enabled, 32 KiB above).
pub open spec fn implied_cpc_base(gcr_base: u64) -> u64 {
    ((gcr_base + 0x8001) as u64) & GCR_CPC_BASE_MSK
}

impl Cmgcr {
    /// A GCR block with the given revision, cluster geometry and base;
    /// every VP resets to the default vector and no CPC is connected.
    pub fn new_named(
        gcr_rev: i32,
        cluster_id: u32,
        num_vps: u32,
        num_hart: u32,
        num_core: u32,
        gcr_base: u64,
    ) -> (r: Self)
        ensures
            r.gcr_rev == gcr_rev && r.cluster_id == cluster_id && r.num_vps == num_vps,
            r.num_hart == num_hart && r.num_core == num_core && r.gcr_base == gcr_base,
            r.cpc_base == 0 && !r.has_cpc,
            r.reset_base@ == Seq::new(256, |i: int| GCR_DEFAULT_RESET_BASE),
    {
        let r = Cmgcr {
            gcr_rev,
            cluster_id,
            num_vps,
            num_hart,
            num_core,
            gcr_base,
            cpc_base: 0,
            has_cpc: false,
            reset_base: [GCR_DEFAULT_RESET_BASE; 256],
        };
        proof {
            assert(r.reset_base@ =~= Seq::new(256, |i: int| GCR_DEFAULT_RESET_BASE));
        }
        r
    }

    /// The default single-VP block at 0x1FB8_0000, revision 0xa00.
    pub fn new() -> (r: Self)
        ensures
            r.gcr_rev == 0xa00 && r.cluster_id == 0 && r.num_vps == 1,
            r.num_hart == 1 && r.num_core == 1 && r.gcr_base == 0x1FB8_0000,
            r.cpc_base == 0 && !r.has_cpc,
            r.reset_base@ == Seq::new(256, |i: int| GCR_DEFAULT_RESET_BASE),
    {
        Self::new_named(0xa00, 0, 1, 1, 1, 0x1FB8_0000)
    }

    /// The number of VPs must be between 1 and 256.
    pub fn validate_properties(&self) -> (r: Result<(), CmgcrConfigError>)
        ensures
            self.num_vps == 0 ==> r == Err::<(), CmgcrConfigError>(CmgcrConfigError::NoVps),
            self.num_vps > 256 ==> r == Err::<(), CmgcrConfigError>(
                CmgcrConfigError::TooManyVps { num_vps: self.num_vps, max: 256 },
            ),
            1 <= self.num_vps <= 256 ==> r is Ok,
    {
        if self.num_vps == 0 {
            return Err(CmgcrConfigError::NoVps);
        }
        if self.num_vps > 256 {
            return Err(CmgcrConfigError::TooManyVps { num_vps: self.num_vps, max: 256 });
        }
        Ok(())
    }

    /// Record whether a CPC is connected.
    pub fn set_cpc_connected(&mut self, connected: bool)
        ensures
            *final(self) == (Cmgcr { has_cpc: connected, ..*old(self) }),
    {
        self.has_cpc = connected;
    }

    /// Reset: derive the CPC base from the GCR base and put every VP back
    /// on the default reset vector. Returns, in VP order, the reset base
    /// handed to each VP.
    pub fn reset_runtime(&mut self) -> (r: Vec<(usize, u64)>)
        requires
            old(self).num_vps <= 256,
            old(self).gcr_base + 0x8001 <= u64::MAX,
        ensures
            final(self).cpc_base == implied_cpc_base(old(self).gcr_base),
            final(self).reset_base@ == Seq::new(
                256,
                |i: int|
                    if i < old(self).num_vps {
                        GCR_DEFAULT_RESET_BASE
                    } else {
                        old(self).reset_base@[i]
                    },
            ),
            *final(self) == (Cmgcr {
                cpc_base: final(self).cpc_base,
                reset_base: final(self).reset_base,
                ..*old(self)
            }),
            r@ == Seq::new(old(self).num_vps as nat, |i: int| (i as usize, GCR_DEFAULT_RESET_BASE)),
    {
        self.cpc_base = (self.gcr_base + 0x8001) & GCR_CPC_BASE_MSK;
        let num_vps = self.num_vps as usize;
        let mut notes: Vec<(usize, u64)> = Vec::new();
        let mut vp: usize = 0;
        while vp < num_vps
            invariant
                num_vps == old(self).num_vps,
                num_vps <= 256,
                vp <= num_vps,
                self.cpc_base == implied_cpc_base(old(self).gcr_base),
                *self == (Cmgcr { cpc_base: self.cpc_base, reset_base: self.reset_base, ..*old(self) }),
                forall|i: int|
                    0 <= i < 256 ==> #[trigger] self.reset_base@[i] == (if i < vp {
                        GCR_DEFAULT_RESET_BASE
                    } else {
                        old(self).reset_base@[i]
                    }),
                notes@ == Seq::new(vp as nat, |i: int| (i as usize, GCR_DEFAULT_RESET_BASE)),
            decreases num_vps - vp,
        {
            self.reset_base[vp] = GCR_DEFAULT_RESET_BASE;
            notes.push((vp, GCR_DEFAULT_RESET_BASE));
            proof {
                assert(notes@ =~= Seq::new((vp + 1) as nat, |i: int| (i as usize, GCR_DEFAULT_RESET_BASE)));
            }
            vp = vp + 1;
        }
        proof {
            assert(self.reset_base@ =~= Seq::new(
                256,
                |i: int|
                    if i < old(self).num_vps {
                        GCR_DEFAULT_RESET_BASE
                    } else {
                        old(self).reset_base@[i]
                    },
            ));
        }
        notes
    }

    /// A guest read of `size` bytes at `offset`.
    pub fn read(&self, offset: u64, size: u32) -> (r: u64)
        ensures
            r == gcr_sized(gcr_reg(*self, offset), size),
    {
        let value = if offset == GCR_BASE_OFS {
            self.gcr_base
        } else if offset == GCR_REV_OFS {
            self.gcr_rev as u64
        } else if offset == GCR_CPC_STATUS_OFS {
            if self.has_cpc {
                1
            } else {
                0
            }
        } else if offset == GCR_L2_CONFIG_OFS {
            GCR_L2_CONFIG_BYPASS_MSK
        } else {
            0
        };
        sized(value, size)
    }

    /// A guest write of `size` bytes at `offset`. A write to the
    /// reset-base register of a hart (the first matching core and hart)
    /// sets that VP's reset base and returns it with the VP index; a
    /// write to the GCR base moves the GCR and the CPC.
    pub fn write(&mut self, offset: u64, size: u32, val: u64) -> (r: Option<(usize, u64)>)
        ensures
            ({
                let s = *old(self);
                let value = gcr_sized(val, size);
                if exists|c: int, h: int| clcb_hit(s, offset, c, h) {
                    forall|c: int, h: int|
                        #[trigger] clcb_first(s, offset, c, h) ==> {
                            let cpu = c * s.num_hart + h;
                            if cpu < 256 {
                                &&& r == Some((cpu as usize, value & GCR_CL_RESET_BASE_MSK))
                                &&& *final(self) == (Cmgcr { reset_base: final(self).reset_base, ..s })
                                &&& final(self).reset_base@ == s.reset_base@.update(
                                    cpu,
                                    value & GCR_CL_RESET_BASE_MSK,
                                )
                            } else {
                                r is None && *final(self) == s
                            }
                        }
                } else if offset == GCR_BASE_OFS {
                    &&& r is None
                    &&& *final(self) == (Cmgcr {
                        gcr_base: value & GCR_BASE_GCRBASE_MSK,
                        cpc_base: implied_cpc_base(value & GCR_BASE_GCRBASE_MSK),
                        ..s
                    })
                } else {
                    r is None && *final(self) == s
                }
            }),
    {
        let value = sized(val, size);
        let num_core = self.num_core as u64;
        let num_hart = self.num_hart as u64;
        let mut c: u64 = 0;
        while c < num_core
            invariant
                num_core == old(self).num_core,
                num_hart == old(self).num_hart,
                value == gcr_sized(val, size),
                *self == *old(self),
                c <= num_core,
                forall|c2: int, h2: int| c2 < c ==> !#[trigger] clcb_hit(*old(self), offset, c2, h2),
            decreases num_core - c,
        {
            let mut h: u64 = 0;
            while h < num_hart
                invariant
                    num_core == old(self).num_core,
                    num_hart == old(self).num_hart,
                    value == gcr_sized(val, size),
                    *self == *old(self),
                    c < num_core,
                    h <= num_hart,
                    forall|c2: int, h2: int|
                        (c2 < c || (c2 == c && h2 < h)) ==> !#[trigger] clcb_hit(*old(self), offset, c2, h2),
                decreases num_hart - h,
            {
                proof {
                    assert(c * 0x100 <= 0xFFFF_FFFFu64 * 0x100) by (nonlinear_arith)
                        requires
                            c < 0x1_0000_0000,
                    ;
                }
                let addr = CLCB_OFS + c * CORE_REG_STRIDE + h * 8;
                if offset == addr {
                    proof {
                        assert(clcb_hit(*old(self), offset, c as int, h as int));
                        assert(clcb_first(*old(self), offset, c as int, h as int));
                        assert(c * num_hart + h <= 0xFFFF_FFFFu64 * 0xFFFF_FFFFu64 + 0xFFFF_FFFFu64)
                            by (nonlinear_arith)
                            requires
                                c < 0x1_0000_0000,
                                num_hart < 0x1_0000_0000,
                                h < 0x1_0000_0000,
                        ;
                    }
                    let cpu_index = c * num_hart + h;
                    if cpu_index < 256 {
                        let masked = value & GCR_CL_RESET_BASE_MSK;
                        self.reset_base[cpu_index as usize] = masked;
                        proof {
                            let s = *old(self);
                            let ci = c as int;
                            let hi = h as int;
                            assert(ci * s.num_hart + hi == cpu_index);
                            assert(self.reset_base@ == s.reset_base@.update(cpu_index as int, masked));
                            assert(*self == (Cmgcr { reset_base: self.reset_base, ..s }));
                            assert(clcb_first(s, offset, ci, hi));
                            assert(exists|c2: int, h2: int| clcb_hit(s, offset, c2, h2));
                            assert forall|c2: int, h2: int| clcb_first(s, offset, c2, h2) implies c2 == ci && h2
                                == hi by {
                                if c2 < ci || (c2 == ci && h2 < hi) {
                                    assert(!clcb_hit(s, offset, c2, h2));
                                } else if ci < c2 || (ci == c2 && hi < h2) {
                                    assert(!clcb_hit(s, offset, ci, hi));
                                }
                            }
                        }
                        return Some((cpu_index as usize, masked));
                    }
                    return None;
                }
                h = h + 1;
            }
            c = c + 1;
        }
        if offset == GCR_BASE_OFS {
            self.gcr_base = value & GCR_BASE_GCRBASE_MSK;
            proof {
                assert(value & 0xFFFF_FFFF_8000 <= 0xFFFF_FFFF_8000) by (bit_vector);
            }
            self.cpc_base = (self.gcr_base + 0x8001) & GCR_CPC_BASE_MSK;
        }
        None
    }
}

pub const CPC_MTIME_REG_OFS: u64 = 0x50;
pub const CPC_CM_STAT_CONF_OFS: u64 = 0x1008;
pub const CPC_CL_BASE_OFS: u64 = 0x2000;
pub const CPC_CORE_REG_STRIDE: u64 = 0x100;
pub const CPC_STAT_CONF_OFS: u64 = 0x08;
pub const CPC_VP_STOP_OFS: u64 = 0x20;
pub const CPC_VP_RUN_OFS: u64 = 0x28;
/// Sequencer state U5 (bits 19..): the coherence manager is up.
pub const CPC_STAT_CONF_SEQ_STATE_U5: u64 = 0x30_0000;
/// Sequencer state U6 (bits 19..): the core is powered and running.
pub const CPC_STAT_CONF_SEQ_STATE_U6: u64 = 0x38_0000;

/// The Cluster Power Controller.
pub struct Cpc {
    pub name: String,
    pub cluster_id: u32,
    pub num_vp: u32,
    pub num_hart: u32,
    pub num_core: u32,
    /// The VPs that run out of reset.
    pub vps_start_running_mask: u64,
    /// The VPs currently running.
    pub vps_running_mask: u64,
}

/// `offset` addresses the per-core register at `reg` of some core of
/// the cluster; the core's index.
pub open spec fn cpc_core_reg(s: Cpc, offset: u64, reg: u64) -> Option<int> {
    let base = CPC_CL_BASE_OFS + reg;
    if offset >= base && (offset - base) % (CPC_CORE_REG_STRIDE as int) == 0 && (offset - base)
        / (CPC_CORE_REG_STRIDE as int) < s.num_core {
        Some((offset - base) / (CPC_CORE_REG_STRIDE as int))
    } else {
        None
    }
}

/// The value of a guest read at `offset`.
pub open spec fn cpc_read(s: Cpc, offset: u64) -> u64 {
    if cpc_core_reg(s, offset, CPC_STAT_CONF_OFS) is Some {
        CPC_STAT_CONF_SEQ_STATE_U6
    } else if offset == CPC_CM_STAT_CONF_OFS {
        CPC_STAT_CONF_SEQ_STATE_U5
    } else {
        0
    }
}

/// The first global VP index of core `c`.
pub open spec fn cpc_cpu_index(s: Cpc, c: int) -> int {
    c * s.num_hart + s.cluster_id * s.num_core * s.num_hart
}

/// The VPs of the cluster, as a mask.
pub open spec fn cpc_vp_mask(s: Cpc) -> u64 {
    ((1u64 << s.num_vp) - 1) as u64
}

/// The VPs named by `val`, shifted to core `c`'s first VP.
pub open spec fn cpc_vps(s: Cpc, val: u64, c: int) -> u64 {
    (val << (cpc_cpu_index(s, c) as u64)) & cpc_vp_mask(s)
}

/// What a guest write needs: the VP mask and the per-core VP indices are
/// computable, and a run or stop request shifts by less than 64.
pub open spec fn cpc_write_ok(s: Cpc, offset: u64) -> bool {
    &&& s.num_vp < 64
    &&& s.cluster_id * s.num_core * s.num_hart + s.num_core * s.num_hart <= u64::MAX
    &&& cpc_core_reg(s, offset, CPC_VP_RUN_OFS) matches Some(c) ==> cpc_cpu_index(s, c) < 64
    &&& cpc_core_reg(s, offset, CPC_VP_STOP_OFS) matches Some(c) ==> cpc_cpu_index(s, c) < 64
}

/// The running mask after a guest write of `val` at `offset`.
pub open spec fn cpc_write_running(s: Cpc, offset: u64, val: u64) -> u64 {
    if let Some(c) = cpc_core_reg(s, offset, CPC_VP_RUN_OFS) {
        s.vps_running_mask | cpc_vps(s, val, c)
    } else if let Some(c) = cpc_core_reg(s, offset, CPC_VP_STOP_OFS) {
        s.vps_running_mask & !cpc_vps(s, val, c)
    } else {
        s.vps_running_mask
    }
}

fn max1(v: u32) -> (r: u32)
    ensures
        r == (if v >= 1 { v } else { 1 }),
{
    if v >= 1 {
        v
    } else {
        1
    }
}

impl Cpc {
    /// A CPC named `local_id`; the VP, hart and core counts are at least
    /// one. No VP runs until reset.
    pub fn new_named(
        local_id: &str,
        cluster_id: u32,
        num_vp: u32,
        num_hart: u32,
        num_core: u32,
        vps_start_running_mask: u64,
    ) -> (r: Self)
        ensures
            r.name@ == local_id@,
            r.cluster_id == cluster_id,
            r.num_vp == (if num_vp >= 1 { num_vp } else { 1 }),
            r.num_hart == (if num_hart >= 1 { num_hart } else { 1 }),
            r.num_core == (if num_core >= 1 { num_core } else { 1 }),
            r.vps_start_running_mask == vps_start_running_mask,
            r.vps_running_mask == 0,
    {
        Cpc {
            name: local_id.to_string(),
            cluster_id,
            num_vp: max1(num_vp),
            num_hart: max1(num_hart),
            num_core: max1(num_core),
            vps_start_running_mask,
            vps_running_mask: 0,
        }
    }

    /// The default single-VP controller, whose VP runs out of reset.
    pub fn new() -> (r: Self)
        ensures
            r.cluster_id == 0 && r.num_vp == 1 && r.num_hart == 1 && r.num_core == 1,
            r.vps_start_running_mask == 1 && r.vps_running_mask == 0,
    {
        Self::new_named("cpc", 0, 1, 1, 1, 1)
    }

    /// Reset: exactly the start-running VPs run.
    pub fn reset_runtime(&mut self)
        ensures
            final(self).vps_running_mask == old(self).vps_start_running_mask,
            final(self).name == old(self).name,
            final(self).cluster_id == old(self).cluster_id,
            final(self).num_vp == old(self).num_vp,
            final(self).num_hart == old(self).num_hart,
            final(self).num_core == old(self).num_core,
            final(self).vps_start_running_mask == old(self).vps_start_running_mask,
    {
        self.vps_running_mask = 0;
        self.vps_running_mask = self.vps_running_mask | self.vps_start_running_mask;
        proof {
            let m = self.vps_start_running_mask;
            assert(0u64 | m == m) by (bit_vector);
        }
    }

    /// A guest read: each core's status register reports it running
    /// (U6), the CM status reports U5, everything else reads 0.
    pub fn read(&self, offset: u64) -> (r: u64)
        ensures
            r == cpc_read(*self, offset),
    {
        let num_core = self.num_core as u64;
        let mut c: u64 = 0;
        while c < num_core
            invariant
                num_core == self.num_core,
                c <= num_core,
                !(offset >= 0x2008 && (offset - 0x2008) % 0x100 == 0 && (offset - 0x2008) / 0x100 < c),
            decreases num_core - c,
        {
            if offset == CPC_CL_BASE_OFS + CPC_STAT_CONF_OFS + c * CPC_CORE_REG_STRIDE {
                return CPC_STAT_CONF_SEQ_STATE_U6;
            }
            c = c + 1;
        }
        if offset == CPC_CM_STAT_CONF_OFS {
            CPC_STAT_CONF_SEQ_STATE_U5
        } else {
            0
        }
    }

    /// A guest write: writing a core's run (stop) register starts (stops)
    /// the VPs named by `val`, shifted to that core's first VP and
    /// limited to the cluster's VPs.
    pub fn write(&mut self, offset: u64, val: u64)
        requires
            cpc_write_ok(*old(self), offset),
        ensures
            final(self).vps_running_mask == cpc_write_running(*old(self), offset, val),
            final(self).name == old(self).name,
            final(self).cluster_id == old(self).cluster_id,
            final(self).num_vp == old(self).num_vp,
            final(self).num_hart == old(self).num_hart,
            final(self).num_core == old(self).num_core,
            final(self).vps_start_running_mask == old(self).vps_start_running_mask,
    {
        let num_vp = self.num_vp;
        proof {
            assert(1u64 << num_vp >= 1) by (bit_vector)
                requires
                    num_vp < 64,
            ;
        }
        let vp_run_mask = (1u64 << num_vp) - 1;
        let num_core = self.num_core as u64;
        let num_hart = self.num_hart as u64;
        let cluster_id = self.cluster_id as u64;
        proof {
            assert(cluster_id * num_core <= 0xFFFF_FFFFu64 * 0xFFFF_FFFFu64) by (nonlinear_arith)
                requires
                    cluster_id < 0x1_0000_0000,
                    num_core < 0x1_0000_0000,
            ;
            assert(cluster_id * num_core * num_hart <= cluster_id * num_core * num_hart + num_core * num_hart)
                by (nonlinear_arith);
        }
        let cluster_base = cluster_id * num_core * num_hart;
        let mut c: u64 = 0;
        while c < num_core
            invariant
                cpc_write_ok(*old(self), offset),
                num_core == old(self).num_core,
                num_hart == old(self).num_hart,
                cluster_base == old(self).cluster_id * old(self).num_core * old(self).num_hart,
                vp_run_mask == cpc_vp_mask(*old(self)),
                c <= num_core,
                self.vps_running_mask == old(self).vps_running_mask,
                self.name == old(self).name,
                self.cluster_id == old(self).cluster_id,
                self.num_vp == old(self).num_vp,
                self.num_hart == old(self).num_hart,
                self.num_core == old(self).num_core,
                self.vps_start_running_mask == old(self).vps_start_running_mask,
                !(offset >= 0x2028 && (offset - 0x2028) % 0x100 == 0 && (offset - 0x2028) / 0x100 < c),
                !(offset >= 0x2020 && (offset - 0x2020) % 0x100 == 0 && (offset - 0x2020) / 0x100 < c),
            decreases num_core - c,
        {
            proof {
                assert(c * num_hart + cluster_base <= num_core * num_hart + cluster_base)
                    by (nonlinear_arith)
                    requires
                        c < num_core,
                ;
            }
            let cpu_index = c * num_hart + cluster_base;
            if offset == CPC_CL_BASE_OFS + CPC_VP_RUN_OFS + c * CPC_CORE_REG_STRIDE {
                proof {
                    assert(cpc_core_reg(*old(self), offset, CPC_VP_RUN_OFS) == Some(c as int));
                }
                let mask = (val << cpu_index) & vp_run_mask;
                self.vps_running_mask = self.vps_running_mask | mask;
                return;
            }
            if offset == CPC_CL_BASE_OFS + CPC_VP_STOP_OFS + c * CPC_CORE_REG_STRIDE {
                proof {
                    assert(cpc_core_reg(*old(self), offset, CPC_VP_STOP_OFS) == Some(c as int));
                    assert(cpc_core_reg(*old(self), offset, CPC_VP_RUN_OFS) is None);
                }
                let mask = (val << cpu_index) & vp_run_mask;
                self.vps_running_mask = self.vps_running_mask & !mask;
                return;
            }
            c = c + 1;
        }
    }
}

} // verus!
