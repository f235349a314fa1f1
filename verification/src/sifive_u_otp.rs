//! SiFive U one-time-programmable fuse memory: 4096 words of fuses,
//! each bit of which can be programmed once.
use vstd::prelude::*;

verus! {

pub const SIFIVE_U_OTP_PA: u64 = 0x00;
pub const SIFIVE_U_OTP_PAIO: u64 = 0x04;
pub const SIFIVE_U_OTP_PAS: u64 = 0x08;
pub const SIFIVE_U_OTP_PCE: u64 = 0x0C;
pub const SIFIVE_U_OTP_PCLK: u64 = 0x10;
pub const SIFIVE_U_OTP_PDIN: u64 = 0x14;
pub const SIFIVE_U_OTP_PDOUT: u64 = 0x18;
pub const SIFIVE_U_OTP_PDSTB: u64 = 0x1C;
pub const SIFIVE_U_OTP_PPROG: u64 = 0x20;
pub const SIFIVE_U_OTP_PTC: u64 = 0x24;
pub const SIFIVE_U_OTP_PTM: u64 = 0x28;
pub const SIFIVE_U_OTP_PTM_REP: u64 = 0x2C;
pub const SIFIVE_U_OTP_PTR: u64 = 0x30;
pub const SIFIVE_U_OTP_PTRIM: u64 = 0x34;
pub const SIFIVE_U_OTP_PWE: u64 = 0x38;

pub const PA_MASK: u32 = 0xFFF;
pub const NUM_FUSES: usize = 0x1000;
pub const SERIAL_ADDR: usize = 0xFC;

/// The OTP controller registers and the fuse array.
pub struct SiFiveUOtp {
    pub pa: u32,
    pub paio: u32,
    pub pas: u32,
    pub pce: u32,
    pub pclk: u32,
    pub pdin: u32,
    pub pdstb: u32,
    pub pprog: u32,
    pub ptc: u32,
    pub ptm: u32,
    pub ptm_rep: u32,
    pub ptr: u32,
    pub ptrim: u32,
    pub pwe: u32,
    /// The fuse words.
    pub fuse: [u32; 4096],
    /// Per fuse bit, whether it has been programmed.
    pub fuse_wo: [u32; 4096],
}

/// Bit `pos` of `word`.
pub open spec fn otp_bit(word: u32, pos: u32) -> u32 {
    (word >> pos) & 1
}

/// The fuse word selected by the address register.
pub open spec fn otp_index(s: SiFiveUOtp) -> int {
    (s.pa & PA_MASK) as int
}

/// Whether the output port is powered, enabled and trimmed.
pub open spec fn otp_output_enabled(s: SiFiveUOtp) -> bool {
    s.pce & 1 != 0 && s.pdstb & 1 != 0 && s.ptrim & 1 != 0
}

/// The value of a guest read at `offset`.
pub open spec fn otp_read(s: SiFiveUOtp, offset: u64) -> u64 {
    if offset == SIFIVE_U_OTP_PA {
        s.pa as u64
    } else if offset == SIFIVE_U_OTP_PAIO {
        s.paio as u64
    } else if offset == SIFIVE_U_OTP_PAS {
        s.pas as u64
    } else if offset == SIFIVE_U_OTP_PCE {
        s.pce as u64
    } else if offset == SIFIVE_U_OTP_PCLK {
        s.pclk as u64
    } else if offset == SIFIVE_U_OTP_PDIN {
        s.pdin as u64
    } else if offset == SIFIVE_U_OTP_PDOUT {
        if otp_output_enabled(s) {
            s.fuse@[otp_index(s)] as u64
        } else {
            0xFF
        }
    } else if offset == SIFIVE_U_OTP_PDSTB {
        s.pdstb as u64
    } else if offset == SIFIVE_U_OTP_PPROG {
        s.pprog as u64
    } else if offset == SIFIVE_U_OTP_PTC {
        s.ptc as u64
    } else if offset == SIFIVE_U_OTP_PTM {
        s.ptm as u64
    } else if offset == SIFIVE_U_OTP_PTM_REP {
        s.ptm_rep as u64
    } else if offset == SIFIVE_U_OTP_PTR {
        s.ptr as u64
    } else if offset == SIFIVE_U_OTP_PTRIM {
        s.ptrim as u64
    } else if offset == SIFIVE_U_OTP_PWE {
        s.pwe as u64
    } else {
        0
    }
}

/// The registers after a write of `value` to any register but the
/// write-enable one (the fuses are untouched).
pub open spec fn otp_register_write(s: SiFiveUOtp, offset: u64, value: u32) -> SiFiveUOtp {
    if offset == SIFIVE_U_OTP_PA {
        SiFiveUOtp { pa: value & PA_MASK, ..s }
    } else if offset == SIFIVE_U_OTP_PAIO {
        SiFiveUOtp { paio: value, ..s }
    } else if offset == SIFIVE_U_OTP_PAS {
        SiFiveUOtp { pas: value, ..s }
    } else if offset == SIFIVE_U_OTP_PCE {
        SiFiveUOtp { pce: value, ..s }
    } else if offset == SIFIVE_U_OTP_PCLK {
        SiFiveUOtp { pclk: value, ..s }
    } else if offset == SIFIVE_U_OTP_PDIN {
        SiFiveUOtp { pdin: value, ..s }
    } else if offset == SIFIVE_U_OTP_PDSTB {
        SiFiveUOtp { pdstb: value, ..s }
    } else if offset == SIFIVE_U_OTP_PPROG {
        SiFiveUOtp { pprog: value, ..s }
    } else if offset == SIFIVE_U_OTP_PTC {
        SiFiveUOtp { ptc: value, ..s }
    } else if offset == SIFIVE_U_OTP_PTM {
        SiFiveUOtp { ptm: value, ..s }
    } else if offset == SIFIVE_U_OTP_PTM_REP {
        SiFiveUOtp { ptm_rep: value, ..s }
    } else if offset == SIFIVE_U_OTP_PTR {
        SiFiveUOtp { ptr: value, ..s }
    } else if offset == SIFIVE_U_OTP_PTRIM {
        SiFiveUOtp { ptrim: value, ..s }
    } else {
        s
    }
}

/// A write of `value` to the write-enable register programs the
/// addressed fuse bit: it enables writing and no write is in progress.
pub open spec fn otp_program_requested(s: SiFiveUOtp, value: u32) -> bool {
    value & 1 != 0 && s.pas == 0
}

/// The addressed fuse bit has not been programmed yet.
pub open spec fn otp_bit_unwritten(s: SiFiveUOtp) -> bool {
    otp_bit(s.fuse_wo@[otp_index(s)], s.paio) == 0
}

/// The addressed fuse word after programming bit `paio` to the value of
/// the data-in register.
pub open spec fn otp_programmed_word(s: SiFiveUOtp) -> u32 {
    let w = s.fuse@[otp_index(s)];
    if s.pdin != 0 {
        w | (1u32 << s.paio)
    } else {
        w & !(1u32 << s.paio)
    }
}

/// What a guest write needs: programming a fuse names a bit of the word.
pub open spec fn otp_write_ok(s: SiFiveUOtp, offset: u64, val: u64) -> bool {
    offset == SIFIVE_U_OTP_PWE && otp_program_requested(s, val as u32) ==> s.paio < 32
}

/// The registers `t` after a guest write of `val` at `offset` to `s`.
pub open spec fn otp_write_result(s: SiFiveUOtp, offset: u64, val: u64, t: SiFiveUOtp) -> bool {
    let value = val as u32;
    if offset != SIFIVE_U_OTP_PWE {
        t == otp_register_write(s, offset, value)
    } else {
        let programs = otp_program_requested(s, value) && otp_bit_unwritten(s);
        &&& t == (SiFiveUOtp { pwe: value & 1, fuse: t.fuse, fuse_wo: t.fuse_wo, ..s })
        &&& programs ==> t.fuse@ == s.fuse@.update(otp_index(s), otp_programmed_word(s))
        &&& programs ==> t.fuse_wo@ == s.fuse_wo@.update(
            otp_index(s),
            s.fuse_wo@[otp_index(s)] | (1u32 << s.paio),
        )
        &&& !programs ==> t.fuse == s.fuse && t.fuse_wo == s.fuse_wo
    }
}

impl SiFiveUOtp {
    /// A fresh part whose serial number is `serial`: all fuses read as
    /// ones except the serial word and its complement, and none has been
    /// programmed.
    pub fn with_serial(serial: u32) -> (r: Self)
        ensures
            r.pa == 0 && r.paio == 0 && r.pas == 0 && r.pce == 0 && r.pclk == 0 && r.pdin == 0,
            r.pdstb == 0 && r.pprog == 0 && r.ptc == 0 && r.ptm == 0 && r.ptm_rep == 0,
            r.ptr == 0 && r.ptrim == 0 && r.pwe == 0,
            r.fuse@ == Seq::new(4096, |i: int| 0xFFFF_FFFFu32).update(0xFC, serial).update(0xFD, !serial),
            r.fuse_wo@ == Seq::new(4096, |i: int| 0u32),
    {
        let mut r = SiFiveUOtp {
            pa: 0,
            paio: 0,
            pas: 0,
            pce: 0,
            pclk: 0,
            pdin: 0,
            pdstb: 0,
            pprog: 0,
            ptc: 0,
            ptm: 0,
            ptm_rep: 0,
            ptr: 0,
            ptrim: 0,
            pwe: 0,
            fuse: [0xFFFF_FFFFu32; 4096],
            fuse_wo: [0u32; 4096],
        };
        proof {
            assert(r.fuse@ =~= Seq::new(4096, |i: int| 0xFFFF_FFFFu32));
            assert(r.fuse_wo@ =~= Seq::new(4096, |i: int| 0u32));
        }
        r.fuse[SERIAL_ADDR] = serial;
        r.fuse[SERIAL_ADDR + 1] = !serial;
        proof {
            assert(r.fuse@ =~= Seq::new(4096, |i: int| 0xFFFF_FFFFu32).update(0xFC, serial).update(0xFD, !serial));
        }
        r
    }

    /// A fresh part with serial number 0.
    pub fn new() -> (r: Self)
        ensures
            r.pa == 0 && r.paio == 0 && r.pas == 0 && r.pce == 0 && r.pclk == 0 && r.pdin == 0,
            r.pdstb == 0 && r.pprog == 0 && r.ptc == 0 && r.ptm == 0 && r.ptm_rep == 0,
            r.ptr == 0 && r.ptrim == 0 && r.pwe == 0,
            r.fuse@ == Seq::new(4096, |i: int| 0xFFFF_FFFFu32).update(0xFC, 0u32).update(0xFD, 0xFFFF_FFFFu32),
            r.fuse_wo@ == Seq::new(4096, |i: int| 0u32),
    {
        let r = Self::with_serial(0);
        proof {
            assert(!0u32 == 0xFFFF_FFFFu32) by (bit_vector);
        }
        r
    }

    fn get_wo_bit(&self, idx: usize, offset: u32) -> (r: u32)
        requires
            idx < 4096,
            offset < 32,
        ensures
            r == otp_bit(self.fuse_wo@[idx as int], offset),
    {
        (self.fuse_wo[idx] >> offset) & 1
    }

    /// A guest read at `offset`; the data-out register shows the
    /// addressed fuse word while the port is enabled, 0xFF otherwise.
    pub fn read(&self, offset: u64) -> (r: u64)
        ensures
            r == otp_read(*self, offset),
    {
        if offset == SIFIVE_U_OTP_PA {
            self.pa as u64
        } else if offset == SIFIVE_U_OTP_PAIO {
            self.paio as u64
        } else if offset == SIFIVE_U_OTP_PAS {
            self.pas as u64
        } else if offset == SIFIVE_U_OTP_PCE {
            self.pce as u64
        } else if offset == SIFIVE_U_OTP_PCLK {
            self.pclk as u64
        } else if offset == SIFIVE_U_OTP_PDIN {
            self.pdin as u64
        } else if offset == SIFIVE_U_OTP_PDOUT {
            if self.pce & 1 != 0 && self.pdstb & 1 != 0 && self.ptrim & 1 != 0 {
                let idx = (self.pa & PA_MASK) as usize;
                proof {
                    let pa = self.pa;
                    assert(pa & 0xFFF < 4096) by (bit_vector);
                }
                self.fuse[idx] as u64
            } else {
                0xFF
            }
        } else if offset == SIFIVE_U_OTP_PDSTB {
            self.pdstb as u64
        } else if offset == SIFIVE_U_OTP_PPROG {
            self.pprog as u64
        } else if offset == SIFIVE_U_OTP_PTC {
            self.ptc as u64
        } else if offset == SIFIVE_U_OTP_PTM {
            self.ptm as u64
        } else if offset == SIFIVE_U_OTP_PTM_REP {
            self.ptm_rep as u64
        } else if offset == SIFIVE_U_OTP_PTR {
            self.ptr as u64
        } else if offset == SIFIVE_U_OTP_PTRIM {
            self.ptrim as u64
        } else if offset == SIFIVE_U_OTP_PWE {
            self.pwe as u64
        } else {
            0
        }
    }

    /// A guest write of `val` (taken as 32 bits) at `offset`. Writing the
    /// write-enable register with bit 0 set while no write is in progress
    /// programs bit `paio` of the addressed fuse word to `pdin`, unless
    /// that bit was programmed before.
    pub fn write(&mut self, offset: u64, val: u64)
        requires
            otp_write_ok(*old(self), offset, val),
        ensures
            otp_write_result(*old(self), offset, val, *final(self)),
    {
        let value = val as u32;
        if offset == SIFIVE_U_OTP_PA {
            self.pa = value & PA_MASK;
        } else if offset == SIFIVE_U_OTP_PAIO {
            self.paio = value;
        } else if offset == SIFIVE_U_OTP_PAS {
            self.pas = value;
        } else if offset == SIFIVE_U_OTP_PCE {
            self.pce = value;
        } else if offset == SIFIVE_U_OTP_PCLK {
            self.pclk = value;
        } else if offset == SIFIVE_U_OTP_PDIN {
            self.pdin = value;
        } else if offset == SIFIVE_U_OTP_PDSTB {
            self.pdstb = value;
        } else if offset == SIFIVE_U_OTP_PPROG {
            self.pprog = value;
        } else if offset == SIFIVE_U_OTP_PTC {
            self.ptc = value;
        } else if offset == SIFIVE_U_OTP_PTM {
            self.ptm = value;
        } else if offset == SIFIVE_U_OTP_PTM_REP {
            self.ptm_rep = value;
        } else if offset == SIFIVE_U_OTP_PTR {
            self.ptr = value;
        } else if offset == SIFIVE_U_OTP_PTRIM {
            self.ptrim = value;
        } else if offset == SIFIVE_U_OTP_PWE {
            self.pwe = value & 1;
            if self.pwe != 0 && self.pas == 0 {
                let idx = (self.pa & PA_MASK) as usize;
                proof {
                    let pa = self.pa;
                    assert(pa & 0xFFF < 4096) by (bit_vector);
                }
                let bit = self.paio;
                let din = self.pdin;
                if self.get_wo_bit(idx, bit) != 0 {
                    return;
                }
                let word = self.fuse[idx];
                self.fuse[idx] = if din != 0 { word | (1u32 << bit) } else { word & !(1u32 << bit) };
                let wo = self.fuse_wo[idx];
                self.fuse_wo[idx] = wo | (1u32 << bit);
            }
        }
    }
}

proof fn lemma_other_bit(w: u32, p: u32, b: u32)
    requires
        p < 32,
        b < 32,
        b != p,
    ensures
        ((w | (1u32 << p)) >> b) & 1 == (w >> b) & 1,
        ((w & !(1u32 << p)) >> b) & 1 == (w >> b) & 1,
{
    assert(((w | (1u32 << p)) >> b) & 1 == (w >> b) & 1 && ((w & !(1u32 << p)) >> b) & 1 == (w >> b) & 1)
        by (bit_vector)
        requires
            p < 32,
            b < 32,
            b != p,
    ;
}

/// Fuses are one-time programmable: across any guest write, a fuse bit
/// that is marked programmed stays marked and keeps its value.
pub proof fn lemma_fuse_write_once(s: SiFiveUOtp, offset: u64, val: u64, t: SiFiveUOtp, i: int, b: u32)
    requires
        otp_write_ok(s, offset, val),
        otp_write_result(s, offset, val, t),
        0 <= i < 4096,
        b < 32,
        otp_bit(s.fuse_wo@[i], b) == 1,
    ensures
        otp_bit(t.fuse_wo@[i], b) == 1,
        otp_bit(t.fuse@[i], b) == otp_bit(s.fuse@[i], b),
{
    let value = val as u32;
    if offset != SIFIVE_U_OTP_PWE {
        assert(t.fuse == s.fuse && t.fuse_wo == s.fuse_wo);
    } else if otp_program_requested(s, value) && otp_bit_unwritten(s) {
        let k = otp_index(s);
        assert(s.fuse_wo@.len() == 4096 && s.fuse@.len() == 4096);
        let pa = s.pa;
        assert(pa & 0xFFF < 4096) by (bit_vector);
        if i == k {
            assert(b != s.paio);
            lemma_other_bit(s.fuse_wo@[i], s.paio, b);
            lemma_other_bit(s.fuse@[i], s.paio, b);
            assert(t.fuse_wo@[i] == s.fuse_wo@[i] | (1u32 << s.paio));
        } else {
            assert(t.fuse_wo@[i] == s.fuse_wo@[i]);
            assert(t.fuse@[i] == s.fuse@[i]);
        }
    } else {
        assert(t.fuse == s.fuse && t.fuse_wo == s.fuse_wo);
    }
}

} // verus!
