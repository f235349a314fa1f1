//! SD memory card: the card side of the native SD protocol, backed by
//! block media.
use vstd::prelude::*;
use crate::bytes::{be_bytes, u32_to_be};
use crate::sd::status;
use crate::sd::{SdCard, SdRequest, bytes_read, bytes_written, read_chain, write_chain};
use crate::storage::{BlockBackend, BlockMedia, StorageError};

verus! {

pub const OCR_VOLTAGE_WINDOW: u32 = 0x00ff_ff00;
pub const OCR_CARD_CAPACITY: u32 = 0x4000_0000;
pub const OCR_POWER_UP: u32 = 0x8000_0000;
/// Cards larger than 2 GiB (in 512-byte sectors) are high capacity.
pub const SDSC_MAX_SECTORS: u64 = 0x40_0000;

/// Card configuration.
#[derive(Clone, Copy, Debug, PartialEq, Eq, Structural)]
pub struct SdCardConfig {
    pub inserted: bool,
    pub rca: u16,
}

impl Default for SdCardConfig {
    fn default() -> (r: Self)
        ensures
            r == (SdCardConfig { inserted: true, rca: 1 }),
    {
        SdCardConfig { inserted: true, rca: 1 }
    }
}

/// The card's protocol state.
#[derive(Clone, Copy, Debug, PartialEq, Eq, Structural)]
pub enum CardState {
    Idle,
    Ready,
    Identification,
    Standby,
    Transfer,
    SendingData,
    ReceivingData,
}

/// The card registers.
pub struct SdCardRegs {
    pub state: CardState,
    pub expecting_acmd: bool,
    pub ocr: u32,
    pub vhs: u32,
    pub block_len: usize,
    pub status_flags: u32,
    pub data_start_sector: u64,
    pub data_next_sector: u64,
    pub data_multi_block: bool,
    pub erase_start_sector: Option<u64>,
    pub erase_end_sector: Option<u64>,
    pub data: Vec<u8>,
    pub data_offset: usize,
}

/// The card registers as a value.
pub struct CardView {
    pub state: CardState,
    pub expecting_acmd: bool,
    pub ocr: u32,
    pub vhs: u32,
    pub block_len: usize,
    pub status_flags: u32,
    pub data_start_sector: u64,
    pub data_next_sector: u64,
    pub data_multi_block: bool,
    pub erase_start_sector: Option<u64>,
    pub erase_end_sector: Option<u64>,
    pub data: Seq<u8>,
    pub data_offset: usize,
}

impl View for SdCardRegs {
    type V = CardView;

    open spec fn view(&self) -> CardView {
        CardView {
            state: self.state,
            expecting_acmd: self.expecting_acmd,
            ocr: self.ocr,
            vhs: self.vhs,
            block_len: self.block_len,
            status_flags: self.status_flags,
            data_start_sector: self.data_start_sector,
            data_next_sector: self.data_next_sector,
            data_multi_block: self.data_multi_block,
            erase_start_sector: self.erase_start_sector,
            erase_end_sector: self.erase_end_sector,
            data: self.data@,
            data_offset: self.data_offset,
        }
    }
}

/// The operating conditions at power-up: the voltage window, plus the
/// high-capacity bit for cards over 2 GiB.
pub open spec fn initial_ocr(sector_count: u64) -> u32 {
    if sector_count > SDSC_MAX_SECTORS {
        OCR_VOLTAGE_WINDOW | OCR_CARD_CAPACITY
    } else {
        OCR_VOLTAGE_WINDOW
    }
}

/// The registers after a reset (CMD0 or power-up).
pub open spec fn card_reset_view(sector_count: u64) -> CardView {
    CardView {
        state: CardState::Idle,
        expecting_acmd: false,
        ocr: initial_ocr(sector_count),
        vhs: 0,
        block_len: 512,
        status_flags: 0,
        data_start_sector: 0,
        data_next_sector: 0,
        data_multi_block: false,
        erase_start_sector: None,
        erase_end_sector: None,
        data: Seq::empty(),
        data_offset: 0,
    }
}

/// The numeric encoding of a state in R1 responses.
pub open spec fn card_state_value(state: CardState) -> u32 {
    match state {
        CardState::Idle => 0,
        CardState::Ready => 1,
        CardState::Identification => 2,
        CardState::Standby => 3,
        CardState::Transfer => 4,
        CardState::SendingData => 5,
        CardState::ReceivingData => 6,
    }
}

/// The R1 card-status word.
pub open spec fn r1_status(state: CardState, app_cmd: bool, flags: u32) -> u32 {
    let base = flags | status::READY_FOR_DATA | (card_state_value(state) << 9u32);
    if app_cmd {
        base | status::APP_CMD
    } else {
        base
    }
}

/// A four-byte big-endian response.
pub open spec fn be32(v: u32) -> Seq<u8> {
    be_bytes(v as nat, 4)
}

/// The card identification register.
pub open spec fn default_cid() -> Seq<u8> {
    seq![
        0x00u8, 0x4d, 0x41, 0x43, 0x48, 0x49, 0x4e, 0x41, 0x01, 0x00, 0x00, 0x00, 0x00, 0x01, 0x00,
        0xff,
    ]
}

/// The card-specific data register.
pub open spec fn default_csd() -> Seq<u8> {
    seq![
        0x40u8, 0x0e, 0x00, 0x32, 0x5b, 0x59, 0x00, 0x00, 0x00, 0x01, 0x7f, 0x80, 0x0a, 0x40, 0x00,
        0xff,
    ]
}

/// The SD configuration register.
pub open spec fn default_scr() -> Seq<u8> {
    seq![0x02u8, 0x05, 0x00, 0x00, 0x00, 0x00, 0x00, 0x00]
}

/// A valid CMD8 argument names exactly one supply voltage range.
pub open spec fn valid_vhs(arg: u32) -> bool {
    let v = arg >> 8u32;
    exists|k: u32| k < 32 && #[trigger] (1u32 << k) == v
}

/// A byte address names a sector when it is 512-byte aligned.
pub open spec fn sector_of(address: u32) -> Option<u64> {
    if address % 512 == 0 {
        Some((address / 512) as u64)
    } else {
        None
    }
}

/// The R1 response with status flags `flags` after an address, length
/// or protection error.
pub open spec fn card_error(v: CardView, flags: u32) -> (CardView, Seq<u8>) {
    (CardView { status_flags: flags, ..v }, be32(r1_status(CardState::Transfer, false, flags)))
}

/// The registers and response payload after command `req`, given the
/// card's address `rca`, its size in sectors, whether it is read-only
/// and `outcome`: the data of the sector read by CMD17/CMD18, or the
/// result of the erase done by CMD38 (ignored by other commands).
pub open spec fn card_cmd(
    v: CardView,
    rca: u16,
    sector_count: u64,
    readonly: bool,
    req: SdRequest,
    outcome: Result<Seq<u8>, StorageError>,
) -> (CardView, Seq<u8>) {
    let cmd = req.cmd;
    let arg = req.arg;
    let addressed = arg >> 16u32 == rca as u32;
    if v.expecting_acmd {
        let v1 = CardView { expecting_acmd: false, ..v };
        if cmd == 41 && v.state == CardState::Idle {
            if v.ocr & arg & OCR_VOLTAGE_WINDOW != 0 {
                let v2 = CardView { ocr: v.ocr | OCR_POWER_UP, state: CardState::Ready, ..v1 };
                (v2, be32(v2.ocr))
            } else {
                (v1, be32(v1.ocr))
            }
        } else if cmd == 51 && v.state == CardState::Transfer {
            (
                CardView {
                    data: default_scr(),
                    data_offset: 0,
                    state: CardState::SendingData,
                    ..v1
                },
                be32(r1_status(CardState::Transfer, false, 0)),
            )
        } else {
            (v1, Seq::empty())
        }
    } else if cmd == 0 {
        (card_reset_view(sector_count), Seq::empty())
    } else if cmd == 2 && v.state == CardState::Ready {
        (CardView { state: CardState::Identification, ..v }, default_cid())
    } else if cmd == 3 && (v.state == CardState::Identification || v.state == CardState::Standby) {
        (
            CardView { state: CardState::Standby, ..v },
            be32(((rca as u32) << 16u32) | status::READY_FOR_DATA),
        )
    } else if cmd == 9 && v.state == CardState::Standby && addressed {
        (v, default_csd())
    } else if cmd == 10 && v.state == CardState::Standby && addressed {
        (v, default_cid())
    } else if cmd == 7 && v.state == CardState::Standby && addressed {
        (CardView { state: CardState::Transfer, ..v }, be32(r1_status(CardState::Standby, false, 0)))
    } else if cmd == 8 && v.state == CardState::Idle {
        if valid_vhs(arg) {
            (CardView { vhs: arg, ..v }, be32(arg))
        } else {
            (v, Seq::empty())
        }
    } else if cmd == 55 && (arg == 0 || addressed) {
        (CardView { expecting_acmd: true, ..v }, be32(r1_status(v.state, true, 0)))
    } else if cmd == 13 && (v.state == CardState::Standby || v.state == CardState::Transfer)
        && addressed {
        (v, be32(r1_status(v.state, false, 0)))
    } else if (cmd == 32 || cmd == 33) && v.state == CardState::Transfer {
        match sector_of(arg) {
            Some(sector) if sector < sector_count => {
                let v2 = if cmd == 32 {
                    CardView {
                        status_flags: 0,
                        erase_start_sector: Some(sector),
                        erase_end_sector: None,
                        ..v
                    }
                } else {
                    CardView { status_flags: 0, erase_end_sector: Some(sector), ..v }
                };
                (v2, be32(r1_status(CardState::Transfer, false, 0)))
            },
            _ => card_error(v, status::ADDRESS_ERROR),
        }
    } else if cmd == 38 && v.state == CardState::Transfer {
        if v.erase_start_sector is Some && v.erase_end_sector is Some {
            match outcome {
                Ok(_) => (
                    CardView {
                        status_flags: 0,
                        erase_start_sector: None,
                        erase_end_sector: None,
                        ..v
                    },
                    be32(r1_status(CardState::Transfer, false, 0)),
                ),
                Err(StorageError::ReadOnly) => card_error(v, status::WP_VIOLATION),
                Err(_) => card_error(v, status::ERASE_PARAM),
            }
        } else {
            card_error(v, status::ERASE_SEQ_ERROR)
        }
    } else if cmd == 12 && (v.state == CardState::SendingData || v.state
        == CardState::ReceivingData) {
        (
            CardView {
                data: Seq::empty(),
                data_offset: 0,
                data_multi_block: false,
                state: CardState::Transfer,
                ..v
            },
            be32(r1_status(CardState::Transfer, false, 0)),
        )
    } else if cmd == 16 && v.state == CardState::Transfer {
        if arg != 0 && arg <= 512 {
            (
                CardView { block_len: arg as usize, status_flags: 0, ..v },
                be32(r1_status(CardState::Transfer, false, 0)),
            )
        } else {
            card_error(v, status::BLOCK_LEN_ERROR)
        }
    } else if (cmd == 17 || cmd == 18) && v.state == CardState::Transfer {
        match (sector_of(arg), outcome) {
            (Some(sector), Ok(d)) => (
                CardView {
                    status_flags: 0,
                    data: d,
                    data_offset: 0,
                    data_next_sector: (sector + 1) as u64,
                    data_multi_block: cmd == 18,
                    state: CardState::SendingData,
                    ..v
                },
                be32(r1_status(CardState::Transfer, false, 0)),
            ),
            _ => card_error(v, status::ADDRESS_ERROR),
        }
    } else if (cmd == 24 || cmd == 25) && v.state == CardState::Transfer {
        match sector_of(arg) {
            None => card_error(v, status::ADDRESS_ERROR),
            Some(sector) => if readonly {
                card_error(v, status::WP_VIOLATION)
            } else {
                (
                    CardView {
                        status_flags: 0,
                        data_start_sector: sector,
                        data_next_sector: (sector + 1) as u64,
                        data_multi_block: cmd == 25,
                        data: Seq::new(v.block_len as nat, |i: int| 0u8),
                        data_offset: 0,
                        state: CardState::ReceivingData,
                        ..v
                    },
                    be32(r1_status(CardState::Transfer, false, 0)),
                )
            },
        }
    } else {
        (v, Seq::empty())
    }
}

/// `after` is `before` with `payload` written at its start when it fits
/// (and `n` is its length); otherwise nothing is written and `n` is 0.
pub open spec fn response_written(before: Seq<u8>, after: Seq<u8>, n: int, payload: Seq<u8>) -> bool {
    if before.len() >= payload.len() {
        n == payload.len() && after == payload + before.skip(payload.len() as int)
    } else {
        n == 0 && after == before
    }
}

/// The bytes of `sector` as the card delivers them: one block of the
/// medium, cut to the block length when that is shorter.
pub open spec fn sector_data(contents: Seq<u8>, block_size: u32, sector: u64, block_len: usize) -> Seq<u8> {
    let off = sector * block_size;
    let block = contents.subrange(off, off + block_size);
    if (block_len as int) < (block_size as int) {
        block.take(block_len as int)
    } else {
        block
    }
}

/// The sector `sector` of a medium of `block_size`-byte sectors lies
/// within `contents`.
pub open spec fn sector_in_medium(contents: Seq<u8>, block_size: u32, sector: u64) -> bool {
    sector * block_size + block_size <= contents.len()
}

/// The medium with sectors `start..=end` set to zero.
pub open spec fn sectors_zeroed(contents: Seq<u8>, block_size: u32, start: u64, end: u64) -> Seq<u8> {
    Seq::new(
        contents.len(),
        |i: int|
            if start * block_size <= i < (end + 1) * block_size {
                0u8
            } else {
                contents[i]
            },
    )
}

/// An SD memory card on block media.
pub struct SdMemoryCard<B: BlockBackend> {
    media: BlockMedia<B>,
    config: SdCardConfig,
    regs: SdCardRegs,
}

impl<B: BlockBackend> SdMemoryCard<B> {
    /// The card registers.
    pub closed spec fn regs_view(&self) -> CardView {
        self.regs@
    }

    /// The block media.
    pub closed spec fn media_view(&self) -> BlockMedia<B> {
        self.media
    }

    /// The configuration.
    pub closed spec fn config_view(&self) -> SdCardConfig {
        self.config
    }

    /// The medium's size in sectors.
    pub open spec fn sectors(&self) -> u64 {
        ((self.media_view().inner().contents().len() as int) / (self.media_view().sector_size() as int)) as u64
    }

    /// A card on `media` with configuration `config`, freshly reset.
    pub fn new(media: BlockMedia<B>, config: SdCardConfig) -> (r: Result<Self, StorageError>)
        requires
            media.wf(),
        ensures
            (r matches Ok(c) && c.inv() && c.media_view() == media && c.config_view() == config
                && c.regs_view() == card_reset_view(c.sectors())),
    {
        let sectors = media.sector_count();
        let ocr = if sectors > SDSC_MAX_SECTORS {
            OCR_VOLTAGE_WINDOW | OCR_CARD_CAPACITY
        } else {
            OCR_VOLTAGE_WINDOW
        };
        let regs = SdCardRegs {
            state: CardState::Idle,
            expecting_acmd: false,
            ocr,
            vhs: 0,
            block_len: 512,
            status_flags: 0,
            data_start_sector: 0,
            data_next_sector: 0,
            data_multi_block: false,
            erase_start_sector: None,
            erase_end_sector: None,
            data: Vec::new(),
            data_offset: 0,
        };
        let card = SdMemoryCard { media, config, regs };
        proof {
            assert(card.regs_view() =~= card_reset_view(card.sectors()));
        }
        Ok(card)
    }

    fn reset_regs(&mut self)
        requires
            old(self).media.wf(),
        ensures
            final(self).media == old(self).media,
            final(self).config == old(self).config,
            final(self).regs@ == card_reset_view(old(self).sectors()),
    {
        let sectors = self.media.sector_count();
        self.regs.state = CardState::Idle;
        self.regs.expecting_acmd = false;
        self.regs.ocr = if sectors > SDSC_MAX_SECTORS {
            OCR_VOLTAGE_WINDOW | OCR_CARD_CAPACITY
        } else {
            OCR_VOLTAGE_WINDOW
        };
        self.regs.vhs = 0;
        self.regs.block_len = 512;
        self.regs.status_flags = 0;
        self.regs.data_start_sector = 0;
        self.regs.data_next_sector = 0;
        self.regs.data_multi_block = false;
        self.regs.erase_start_sector = None;
        self.regs.erase_end_sector = None;
        self.regs.data = Vec::new();
        self.regs.data_offset = 0;
        proof {
            assert(self.regs@ =~= card_reset_view(old(self).sectors()));
        }
    }

    /// Reset the card registers.
    pub fn reset_runtime(&mut self)
        requires
            old(self).inv(),
        ensures
            final(self).inv(),
            final(self).media_view() == old(self).media_view(),
            final(self).config_view() == old(self).config_view(),
            final(self).regs_view() == card_reset_view(old(self).sectors()),
    {
        self.reset_regs();
    }

    fn read_sector_data(&self, sector: u64, block_len: usize) -> (r: Result<Vec<u8>, StorageError>)
        requires
            self.media.wf(),
        ensures
            r matches Ok(d) ==> sector_in_medium(self.media.inner().contents(), self.media.sector_size(), sector)
                && d@ == sector_data(self.media.inner().contents(), self.media.sector_size(), sector, block_len)
                && sector < u64::MAX,
            !sector_in_medium(self.media.inner().contents(), self.media.sector_size(), sector) ==> r is Err,
            self.media.inner().reliable() && self.media.inner().contents().len() <= u64::MAX && sector_in_medium(
                self.media.inner().contents(),
                self.media.sector_size(),
                sector,
            ) ==> r is Ok,
            !sector_in_medium(self.media.inner().contents(), self.media.sector_size(), sector) ==> (r matches Err(
                e,
            ) && e == (if sector * self.media.sector_size() + self.media.sector_size() > u64::MAX {
                StorageError::Overflow
            } else {
                StorageError::OutOfRange
            })),
    {
        let bs = self.media.block_size() as usize;
        let mut data: Vec<u8> = vec![0u8; bs];
        let res = self.media.read_block(sector, data.as_mut_slice());
        match res {
            Ok(()) => {},
            Err(e) => {
                return Err(e);
            },
        }
        proof {
            let b = self.media.sector_size() as int;
            assert(sector < u64::MAX) by (nonlinear_arith)
                requires
                    sector * b + b <= u64::MAX,
                    b >= 1,
            ;
        }
        data.truncate(block_len);
        proof {
            let c = self.media.inner().contents();
            let b = self.media.sector_size();
            assert(data@ =~= sector_data(c, b, sector, block_len));
        }
        Ok(data)
    }

    fn erase_sector_range(&mut self, start: u64, end: u64) -> (r: Result<(), StorageError>)
        requires
            old(self).media.wf(),
        ensures
            final(self).media.wf(),
            final(self).config == old(self).config,
            final(self).regs == old(self).regs,
            final(self).media.sector_size() == old(self).media.sector_size(),
            final(self).media.inner().is_readonly() == old(self).media.inner().is_readonly(),
            final(self).media.inner().contents().len() == old(self).media.inner().contents().len() || r is Err,
            final(self).media.inner().reliable() == old(self).media.inner().reliable(),
            old(self).media.inner().reliable() && start <= end < old(self).sectors() && !old(
                self,
            ).media.inner().is_readonly() ==> r is Ok,
            ({
                let c = old(self).media.inner().contents();
                let bs = old(self).media.sector_size();
                let sc = old(self).sectors();
                &&& (start > end || end >= sc) ==> r == Err::<(), StorageError>(StorageError::OutOfRange)
                    && final(self).media.inner().contents() == c
                &&& (start <= end < sc && old(self).media.inner().is_readonly()) ==> r == Err::<(), StorageError>(
                    StorageError::ReadOnly,
                ) && final(self).media.inner().contents() == c
                &&& r is Ok ==> start <= end < sc && final(self).media.inner().contents()
                    == sectors_zeroed(c, bs, start, end)
            }),
    {
        let sc = self.media.sector_count();
        if start > end || end >= sc {
            return Err(StorageError::OutOfRange);
        }
        let bs = self.media.block_size();
        let total = self.media.backend().size();
        let erased: Vec<u8> = vec![0u8; bs as usize];
        let ghost c0 = self.media.inner().contents();
        proof {
            assert(erased@ =~= Seq::new(bs as nat, |i: int| 0u8));
            assert((end + 1) * bs <= c0.len()) by (nonlinear_arith)
                requires
                    end < sc,
                    sc == (c0.len() as int) / (bs as int),
                    bs > 0,
            ;
        }
        let mut sector: u64 = start;
        while sector <= end
            invariant
                self.media.wf(),
                self.config == old(self).config,
                self.regs == old(self).regs,
                self.media.sector_size() == bs,
                bs == old(self).media.sector_size(),
                self.media.inner().is_readonly() == old(self).media.inner().is_readonly(),
                self.media.inner().reliable() == old(self).media.inner().reliable(),
                c0 == old(self).media.inner().contents(),
                c0.len() <= u64::MAX,
                bs > 0,
                start <= sector <= end + 1,
                end < sc,
                sc == (c0.len() as int) / (bs as int),
                (end + 1) * bs <= c0.len(),
                erased@ == Seq::new(bs as nat, |i: int| 0u8),
                self.media.inner().contents() == (if sector == start {
                    c0
                } else {
                    sectors_zeroed(c0, bs, start, (sector - 1) as u64)
                }),
                old(self).media.inner().is_readonly() ==> sector == start,
            decreases end + 1 - sector,
        {
            let ghost before = self.media.inner().contents();
            proof {
                assert(sector * bs + bs <= c0.len()) by (nonlinear_arith)
                    requires
                        sector <= end,
                        (end + 1) * bs <= c0.len(),
                ;
                assert(before.len() == c0.len());
            }
            let res = self.media.write_block(sector, erased.as_slice());
            match res {
                Ok(()) => {},
                Err(e) => {
                    return Err(e);
                },
            }
            proof {
                let after = self.media.inner().contents();
                assert(after =~= sectors_zeroed(c0, bs, start, sector)) by {
                    assert(after.len() == c0.len());
                    assert((sector + 1) * bs == sector * bs + bs) by (nonlinear_arith);
                    assert((start as int) * bs <= (sector as int) * bs) by (nonlinear_arith)
                        requires
                            start <= sector,
                    ;
                    assert forall|i: int| 0 <= i < c0.len() implies after[i] == sectors_zeroed(c0, bs, start, sector)[i] by {
                        if sector * bs <= i < sector * bs + bs {
                            assert(after[i] == erased@[i - sector * bs]);
                        } else {
                            assert(after[i] == before[i]);
                            if sector != start {
                                assert(((sector - 1) as u64 + 1) * bs == sector * bs);
                            }
                        }
                    }
                }
            }
            if sector == end {
                return Ok(());
            }
            sector = sector + 1;
        }
        Ok(())
    }
}

fn write_response(resp: &mut [u8], bytes: &[u8]) -> (n: usize)
    ensures
        response_written(old(resp)@, final(resp)@, n as int, bytes@),
        final(resp)@.len() == old(resp)@.len(),
{
    if resp.len() < bytes.len() {
        return 0;
    }
    let mut i: usize = 0;
    while i < bytes.len()
        invariant
            i <= bytes.len() <= resp.len(),
            resp@.len() == old(resp)@.len(),
            forall|k: int| 0 <= k < i ==> resp@[k] == bytes@[k],
            forall|k: int| i <= k < resp@.len() ==> resp@[k] == old(resp)@[k],
        decreases bytes.len() - i,
    {
        resp[i] = bytes[i];
        i = i + 1;
    }
    proof {
        assert(resp@ =~= bytes@ + old(resp)@.skip(bytes@.len() as int));
    }
    bytes.len()
}

fn write_be32(resp: &mut [u8], value: u32) -> (n: usize)
    ensures
        response_written(old(resp)@, final(resp)@, n as int, be32(value)),
        final(resp)@.len() == old(resp)@.len(),
{
    let b = u32_to_be(value);
    write_response(resp, &b)
}

fn state_value(state: CardState) -> (r: u32)
    ensures
        r == card_state_value(state),
        r <= 6,
{
    match state {
        CardState::Idle => 0,
        CardState::Ready => 1,
        CardState::Identification => 2,
        CardState::Standby => 3,
        CardState::Transfer => 4,
        CardState::SendingData => 5,
        CardState::ReceivingData => 6,
    }
}

fn write_r1(resp: &mut [u8], state: CardState, app_cmd: bool, flags: u32) -> (n: usize)
    ensures
        response_written(old(resp)@, final(resp)@, n as int, be32(r1_status(state, app_cmd, flags))),
        final(resp)@.len() == old(resp)@.len(),
{
    let base = flags | status::READY_FOR_DATA | (state_value(state) << 9u32);
    let st = if app_cmd {
        base | status::APP_CMD
    } else {
        base
    };
    write_be32(resp, st)
}

fn vhs_is_valid(arg: u32) -> (r: bool)
    ensures
        r == valid_vhs(arg),
{
    let v = arg >> 8u32;
    let mut k: u32 = 0;
    while k < 32
        invariant
            k <= 32,
            v == arg >> 8u32,
            forall|j: u32| j < k ==> (1u32 << j) != v,
        decreases 32 - k,
    {
        if (1u32 << k) == v {
            return true;
        }
        k = k + 1;
    }
    false
}

fn sector_address(address: u32) -> (r: Option<u64>)
    ensures
        r == sector_of(address),
{
    if address % 512 != 0 {
        None
    } else {
        Some((address / 512) as u64)
    }
}

fn cid_bytes() -> (r: [u8; 16])
    ensures
        r@ == default_cid(),
{
    let r = [
        0x00u8, 0x4d, 0x41, 0x43, 0x48, 0x49, 0x4e, 0x41, 0x01, 0x00, 0x00, 0x00, 0x00, 0x01, 0x00,
        0xff,
    ];
    proof {
        assert(r@ =~= default_cid());
    }
    r
}

fn csd_bytes() -> (r: [u8; 16])
    ensures
        r@ == default_csd(),
{
    let r = [
        0x40u8, 0x0e, 0x00, 0x32, 0x5b, 0x59, 0x00, 0x00, 0x00, 0x01, 0x7f, 0x80, 0x0a, 0x40, 0x00,
        0xff,
    ];
    proof {
        assert(r@ =~= default_csd());
    }
    r
}

fn scr_vec() -> (r: Vec<u8>)
    ensures
        r@ == default_scr(),
{
    let mut r: Vec<u8> = Vec::new();
    r.push(0x02);
    r.push(0x05);
    let mut i: usize = 0;
    while i < 6
        invariant
            i <= 6,
            r@ == seq![0x02u8, 0x05] + Seq::new(i as nat, |k: int| 0u8),
        decreases 6 - i,
    {
        r.push(0);
        i = i + 1;
        proof {
            assert(r@ =~= seq![0x02u8, 0x05] + Seq::new(i as nat, |k: int| 0u8));
        }
    }
    proof {
        assert(r@ =~= default_scr());
    }
    r
}

impl<B: BlockBackend> SdMemoryCard<B> {
    fn error_r1(&mut self, resp: &mut [u8], flags: u32) -> (n: usize)
        ensures
            final(self).media == old(self).media,
            final(self).config == old(self).config,
            final(self).regs@ == card_error(old(self).regs@, flags).0,
            response_written(old(resp)@, final(resp)@, n as int, card_error(old(self).regs@, flags).1),
            final(resp)@.len() == old(resp)@.len(),
    {
        self.regs.status_flags = flags;
        write_r1(resp, CardState::Transfer, false, flags)
    }
}


/// Whether `outcome` is a possible result of the media work of command
/// `req` (the sector read of CMD17/CMD18, the erase of CMD38) on
/// `before`, leaving the medium as `after`.
pub open spec fn cmd_outcome_ok(
    v: CardView,
    sector_count: u64,
    block_size: u32,
    readonly: bool,
    req: SdRequest,
    before: Seq<u8>,
    after: Seq<u8>,
    rel: bool,
    outcome: Result<Seq<u8>, StorageError>,
) -> bool {
    let cmd = req.cmd;
    if !v.expecting_acmd && (cmd == 17 || cmd == 18) && v.state == CardState::Transfer
        && sector_of(req.arg) is Some {
        let sector = sector_of(req.arg)->0;
        &&& after == before
        &&& rel && before.len() <= u64::MAX && sector_in_medium(before, block_size, sector) ==> outcome is Ok
        &&& outcome matches Ok(d) ==> sector_in_medium(before, block_size, sector) && d == sector_data(
            before,
            block_size,
            sector,
            v.block_len,
        )
        &&& !sector_in_medium(before, block_size, sector) ==> outcome is Err
    } else if !v.expecting_acmd && cmd == 38 && v.state == CardState::Transfer
        && v.erase_start_sector is Some && v.erase_end_sector is Some {
        let start = v.erase_start_sector->0;
        let end = v.erase_end_sector->0;
        &&& (start > end || end >= sector_count) ==> outcome == Err::<Seq<u8>, StorageError>(
            StorageError::OutOfRange,
        ) && after == before
        &&& (start <= end < sector_count && readonly) ==> outcome == Err::<Seq<u8>, StorageError>(
            StorageError::ReadOnly,
        ) && after == before
        &&& rel && start <= end < sector_count && !readonly ==> outcome is Ok
        &&& outcome is Ok ==> start <= end < sector_count && after == sectors_zeroed(
            before,
            block_size,
            start,
            end,
        )
    } else {
        after == before
    }
}

/// The result of command `req` on the card `before` that left it as
/// `after`, having written `n` bytes of response into `resp_after`.
pub open spec fn card_command_done<B: BlockBackend>(
    before: SdMemoryCard<B>,
    after: SdMemoryCard<B>,
    req: SdRequest,
    resp_before: Seq<u8>,
    resp_after: Seq<u8>,
    n: int,
    outcome: Result<Seq<u8>, StorageError>,
) -> bool {
    let res = card_cmd(
        before.regs_view(),
        before.config_view().rca,
        before.sectors(),
        before.media_view().inner().is_readonly(),
        req,
        outcome,
    );
    &&& cmd_outcome_ok(
        before.regs_view(),
        before.sectors(),
        before.media_view().sector_size(),
        before.media_view().inner().is_readonly(),
        req,
        before.media_view().inner().contents(),
        after.media_view().inner().contents(),
        before.media_view().inner().reliable(),
        outcome,
    )
    &&& after.regs_view() == res.0
    &&& response_written(resp_before, resp_after, n, res.1)
}

impl<B: BlockBackend> SdMemoryCard<B> {
    fn command(&mut self, req: &SdRequest, resp: &mut [u8]) -> (r: (usize, Ghost<Result<Seq<u8>, StorageError>>))
        requires
            old(self).media.wf(),
        ensures
            final(self).media.wf(),
            final(self).config == old(self).config,
            final(self).media.sector_size() == old(self).media.sector_size(),
            final(self).media.inner().is_readonly() == old(self).media.inner().is_readonly(),
            final(self).media.inner().reliable() == old(self).media.inner().reliable(),
            final(resp)@.len() == old(resp)@.len(),
            card_command_done(*old(self), *final(self), *req, old(resp)@, final(resp)@, r.0 as int, r.1@),
    {
        let ghost v = self.regs@;
        let cmd = req.cmd;
        let arg = req.arg;
        let rca = self.config.rca;
        let addressed = arg >> 16u32 == rca as u32;
        let ghost ok: Result<Seq<u8>, StorageError> = Ok(Seq::empty());
        if self.regs.expecting_acmd {
            self.regs.expecting_acmd = false;
            if cmd == 41 && self.regs.state == CardState::Idle {
                if self.regs.ocr & arg & OCR_VOLTAGE_WINDOW != 0 {
                    self.regs.ocr = self.regs.ocr | OCR_POWER_UP;
                    self.regs.state = CardState::Ready;
                }
                let ocr = self.regs.ocr;
                proof {
                    assert(self.regs@ =~= card_cmd(v, rca, old(self).sectors(), old(self).media_view().inner().is_readonly(), *req, ok).0);
                }
                return (write_be32(resp, ocr), Ghost(ok));
            } else if cmd == 51 && self.regs.state == CardState::Transfer {
                self.regs.data = scr_vec();
                self.regs.data_offset = 0;
                self.regs.state = CardState::SendingData;
                proof {
                    assert(self.regs@ =~= card_cmd(v, rca, old(self).sectors(), old(self).media_view().inner().is_readonly(), *req, ok).0);
                }
                return (write_r1(resp, CardState::Transfer, false, 0), Ghost(ok));
            } else {
                proof {
                    assert(self.regs@ =~= card_cmd(v, rca, old(self).sectors(), old(self).media_view().inner().is_readonly(), *req, ok).0);
                }
                return (write_response(resp, &[]), Ghost(ok));
            }
        }
        let state = self.regs.state;
        if cmd == 0 {
            self.reset_regs();
            return (write_response(resp, &[]), Ghost(ok));
        } else if cmd == 2 && state == CardState::Ready {
            self.regs.state = CardState::Identification;
            let cid = cid_bytes();
            return (write_response(resp, &cid), Ghost(ok));
        } else if cmd == 3 && (state == CardState::Identification || state == CardState::Standby) {
            self.regs.state = CardState::Standby;
            return (write_be32(resp, ((rca as u32) << 16u32) | status::READY_FOR_DATA), Ghost(ok));
        } else if cmd == 9 && state == CardState::Standby && addressed {
            let csd = csd_bytes();
            return (write_response(resp, &csd), Ghost(ok));
        } else if cmd == 10 && state == CardState::Standby && addressed {
            let cid = cid_bytes();
            return (write_response(resp, &cid), Ghost(ok));
        } else if cmd == 7 && state == CardState::Standby && addressed {
            self.regs.state = CardState::Transfer;
            return (write_r1(resp, CardState::Standby, false, 0), Ghost(ok));
        } else if cmd == 8 && state == CardState::Idle {
            if !vhs_is_valid(arg) {
                return (write_response(resp, &[]), Ghost(ok));
            }
            self.regs.vhs = arg;
            return (write_be32(resp, arg), Ghost(ok));
        } else if cmd == 55 && (arg == 0 || addressed) {
            self.regs.expecting_acmd = true;
            return (write_r1(resp, state, true, 0), Ghost(ok));
        } else if cmd == 13 && (state == CardState::Standby || state == CardState::Transfer) && addressed {
            return (write_r1(resp, state, false, 0), Ghost(ok));
        } else if (cmd == 32 || cmd == 33) && state == CardState::Transfer {
            let sc = self.media.sector_count();
            match sector_address(arg) {
                Some(sector) => {
                    if sector >= sc {
                        return (self.error_r1(resp, status::ADDRESS_ERROR), Ghost(ok));
                    }
                    self.regs.status_flags = 0;
                    if cmd == 32 {
                        self.regs.erase_start_sector = Some(sector);
                        self.regs.erase_end_sector = None;
                    } else {
                        self.regs.erase_end_sector = Some(sector);
                    }
                    return (write_r1(resp, CardState::Transfer, false, 0), Ghost(ok));
                },
                None => {
                    return (self.error_r1(resp, status::ADDRESS_ERROR), Ghost(ok));
                },
            }
        } else if cmd == 38 && state == CardState::Transfer {
            match (self.regs.erase_start_sector, self.regs.erase_end_sector) {
                (Some(start), Some(end)) => {
                    let res = self.erase_sector_range(start, end);
                    match res {
                        Ok(()) => {
                            self.regs.status_flags = 0;
                            self.regs.erase_start_sector = None;
                            self.regs.erase_end_sector = None;
                            return (write_r1(resp, CardState::Transfer, false, 0), Ghost(ok));
                        },
                        Err(e) => {
                            let ghost o: Result<Seq<u8>, StorageError> = Err(e);
                            let flags = match e {
                                StorageError::ReadOnly => status::WP_VIOLATION,
                                _ => status::ERASE_PARAM,
                            };
                            return (self.error_r1(resp, flags), Ghost(o));
                        },
                    }
                },
                _ => {
                    return (self.error_r1(resp, status::ERASE_SEQ_ERROR), Ghost(ok));
                },
            }
        } else if cmd == 12 && (state == CardState::SendingData || state == CardState::ReceivingData) {
            self.regs.data = Vec::new();
            self.regs.data_offset = 0;
            self.regs.data_multi_block = false;
            self.regs.state = CardState::Transfer;
            proof {
                assert(self.regs@ =~= card_cmd(v, rca, old(self).sectors(), old(self).media_view().inner().is_readonly(), *req, ok).0);
            }
            return (write_r1(resp, CardState::Transfer, false, 0), Ghost(ok));
        } else if cmd == 16 && state == CardState::Transfer {
            if arg != 0 && arg <= 512 {
                self.regs.block_len = arg as usize;
                self.regs.status_flags = 0;
                return (write_r1(resp, CardState::Transfer, false, 0), Ghost(ok));
            }
            return (self.error_r1(resp, status::BLOCK_LEN_ERROR), Ghost(ok));
        } else if (cmd == 17 || cmd == 18) && state == CardState::Transfer {
            match sector_address(arg) {
                None => {
                    return (self.error_r1(resp, status::ADDRESS_ERROR), Ghost(ok));
                },
                Some(sector) => {
                    let block_len = self.regs.block_len;
                    match self.read_sector_data(sector, block_len) {
                        Err(e) => {
                            let ghost o: Result<Seq<u8>, StorageError> = Err(e);
                            return (self.error_r1(resp, status::ADDRESS_ERROR), Ghost(o));
                        },
                        Ok(d) => {
                            let ghost o: Result<Seq<u8>, StorageError> = Ok(d@);
                            self.regs.status_flags = 0;
                            self.regs.data = d;
                            self.regs.data_offset = 0;
                            self.regs.data_next_sector = sector + 1;
                            self.regs.data_multi_block = cmd == 18;
                            self.regs.state = CardState::SendingData;
                            return (write_r1(resp, CardState::Transfer, false, 0), Ghost(o));
                        },
                    }
                },
            }
        } else if (cmd == 24 || cmd == 25) && state == CardState::Transfer {
            match sector_address(arg) {
                None => {
                    return (self.error_r1(resp, status::ADDRESS_ERROR), Ghost(ok));
                },
                Some(sector) => {
                    if self.media.backend().readonly() {
                        return (self.error_r1(resp, status::WP_VIOLATION), Ghost(ok));
                    }
                    self.regs.status_flags = 0;
                    self.regs.data_start_sector = sector;
                    self.regs.data_next_sector = sector + 1;
                    self.regs.data_multi_block = cmd == 25;
                    self.regs.data = vec![0u8; self.regs.block_len];
                    self.regs.data_offset = 0;
                    self.regs.state = CardState::ReceivingData;
                    proof {
                        assert(self.regs.data@ =~= Seq::new(v.block_len as nat, |i: int| 0u8));
                    }
                    return (write_r1(resp, CardState::Transfer, false, 0), Ghost(ok));
                },
            }
        }
        (write_response(resp, &[]), Ghost(ok))
    }
}

/// The registers after the host writes `value` during a data phase
/// (before the completed block is stored).
pub open spec fn card_write_byte(v: CardView, value: u8) -> CardView {
    if v.state != CardState::ReceivingData || v.data_offset >= v.data.len() {
        v
    } else {
        let data = v.data.update(v.data_offset as int, value);
        let offset = (v.data_offset + 1) as usize;
        if offset < data.len() {
            CardView { data, data_offset: offset, ..v }
        } else if v.data_multi_block {
            CardView {
                data: Seq::new(data.len(), |i: int| 0u8),
                data_offset: 0,
                data_start_sector: v.data_next_sector,
                data_next_sector: v.data_next_sector.wrapping_add(1),
                ..v
            }
        } else {
            CardView { data, data_offset: offset, state: CardState::Transfer, ..v }
        }
    }
}

/// Whether a write of a data byte completes the block being received.
pub open spec fn write_completes_block(v: CardView) -> bool {
    v.state == CardState::ReceivingData && v.data_offset < v.data.len() && v.data_offset + 1
        >= v.data.len()
}

/// The byte the host reads during a data phase and the registers after
/// it, given `outcome`, the reading of the next sector when a
/// multi-block read crosses a block boundary.
pub open spec fn card_read_byte(v: CardView, outcome: Result<Seq<u8>, StorageError>) -> (CardView, u8) {
    if v.data_offset >= v.data.len() {
        (v, 0xff)
    } else {
        let value = v.data[v.data_offset as int];
        let offset = (v.data_offset + 1) as usize;
        if offset < v.data.len() {
            (CardView { data_offset: offset, ..v }, value)
        } else if v.data_multi_block {
            match outcome {
                Ok(d) => (
                    CardView {
                        data: d,
                        data_offset: 0,
                        data_next_sector: (v.data_next_sector + 1) as u64,
                        ..v
                    },
                    value,
                ),
                Err(_) => (
                    CardView {
                        status_flags: status::ADDRESS_ERROR,
                        data: Seq::empty(),
                        data_offset: 0,
                        data_multi_block: false,
                        state: CardState::Transfer,
                        ..v
                    },
                    value,
                ),
            }
        } else {
            (CardView { data_offset: offset, state: CardState::Transfer, ..v }, value)
        }
    }
}

/// Whether `outcome` is a possible reading of the next sector by a
/// data-phase read of `v` on the medium `contents`.
pub open spec fn read_outcome_ok(
    v: CardView,
    contents: Seq<u8>,
    block_size: u32,
    rel: bool,
    outcome: Result<Seq<u8>, StorageError>,
) -> bool {
    &&& outcome matches Ok(d) ==> sector_in_medium(contents, block_size, v.data_next_sector) && d
        == sector_data(contents, block_size, v.data_next_sector, v.block_len)
    &&& !sector_in_medium(contents, block_size, v.data_next_sector) ==> outcome is Err
    &&& rel && contents.len() <= u64::MAX && sector_in_medium(contents, block_size, v.data_next_sector)
        ==> outcome is Ok
}

/// The sector image that receiving `data` for sector `sector` stores:
/// `data` itself when it is a whole sector, otherwise the sector's
/// current bytes with the first ones replaced by `data`.
pub open spec fn merged_block(contents: Seq<u8>, block_size: u32, sector: u64, data: Seq<u8>) -> Seq<u8> {
    if data.len() == block_size {
        data
    } else {
        let off = sector * block_size;
        Seq::new(
            block_size as nat,
            |i: int|
                if i < data.len() {
                    data[i]
                } else {
                    contents[off + i]
                },
        )
    }
}

/// Whether `after` and `outcome` are a possible result of storing the
/// received `data` on sector `sector` of the medium `before` (read-only
/// when `ro`): a store that succeeded leaves the merged block there, and
/// one outside the medium or on a read-only medium fails and changes
/// nothing.
pub open spec fn block_store_ok(
    before: Seq<u8>,
    block_size: u32,
    ro: bool,
    rel: bool,
    sector: u64,
    data: Seq<u8>,
    after: Seq<u8>,
    outcome: Result<(), StorageError>,
) -> bool {
    &&& rel && before.len() <= u64::MAX && sector_in_medium(before, block_size, sector) && !ro ==> outcome is Ok
    &&& outcome is Ok ==> sector_in_medium(before, block_size, sector) && after == crate::storage::spliced(
        before,
        sector * block_size,
        merged_block(before, block_size, sector, data),
    )
    &&& !sector_in_medium(before, block_size, sector) || ro ==> outcome is Err && after == before
}

impl<B: BlockBackend> SdMemoryCard<B> {
    /// Store the received block on sector `sector`; the ghost result is
    /// how the medium answered.
    fn write_received_block(&mut self, sector: u64) -> (r: Ghost<Result<(), StorageError>>)
        requires
            old(self).media.wf(),
        ensures
            final(self).media.wf(),
            final(self).config == old(self).config,
            final(self).regs == old(self).regs,
            final(self).media.sector_size() == old(self).media.sector_size(),
            final(self).media.inner().is_readonly() == old(self).media.inner().is_readonly(),
            final(self).media.inner().reliable() == old(self).media.inner().reliable(),
            block_store_ok(
                old(self).media.inner().contents(),
                old(self).media.sector_size(),
                old(self).media.inner().is_readonly(),
                old(self).media.inner().reliable(),
                sector,
                old(self).regs.data@,
                final(self).media.inner().contents(),
                r@,
            ),
    {
        let bs = self.media.block_size() as usize;
        if self.regs.data.len() == bs {
            let res = self.media.write_block(sector, self.regs.data.as_slice());
            return Ghost(res);
        }
        let mut block: Vec<u8> = vec![0u8; bs];
        let rr = self.media.read_block(sector, block.as_mut_slice());
        if rr.is_err() {
            return Ghost(rr);
        }
        let ghost sect = block@;
        let len = if self.regs.data.len() < block.len() {
            self.regs.data.len()
        } else {
            block.len()
        };
        let mut i: usize = 0;
        while i < len
            invariant
                i <= len,
                len <= block.len(),
                len <= self.regs.data.len(),
                len == self.regs.data.len() || len == block.len(),
                block@.len() == bs,
                sect.len() == bs,
                self.media.wf(),
                bs == self.media.sector_size(),
                forall|j: int| 0 <= j < i ==> block@[j] == self.regs.data@[j],
                forall|j: int| i <= j < bs ==> block@[j] == sect[j],
            decreases len - i,
        {
            block.set(i, self.regs.data[i]);
            i = i + 1;
        }
        proof {
            let before = self.media.inner().contents();
            let b = self.media.sector_size();
            let off = sector * b;
            assert(sect == before.subrange(off, off + b));
            assert(self.regs.data@.len() != b);
            let m = merged_block(before, b, sector, self.regs.data@);
            assert forall|j: int| 0 <= j < b implies block@[j] == m[j] by {
                if j >= i {
                    assert(sect[j] == before[off + j]);
                }
            }
            assert(block@ =~= m);
        }
        let res = self.media.write_block(sector, block.as_slice());
        Ghost(res)
    }

    fn read_byte_step(&mut self) -> (r: (u8, Ghost<Result<Seq<u8>, StorageError>>))
        requires
            old(self).media.wf(),
        ensures
            final(self).media == old(self).media,
            final(self).config == old(self).config,
            read_outcome_ok(old(self).regs@, old(self).media.inner().contents(), old(self).media.sector_size(), old(self).media.inner().reliable(), r.1@),
            (final(self).regs@, r.0) == card_read_byte(old(self).regs@, r.1@),
    {
        let ghost none: Result<Seq<u8>, StorageError> = Err(StorageError::OutOfRange);
        if self.regs.data_offset >= self.regs.data.len() {
            let ghost o: Result<Seq<u8>, StorageError> = if sector_in_medium(self.media.inner().contents(), self.media.sector_size(), self.regs.data_next_sector) {
                Ok(sector_data(self.media.inner().contents(), self.media.sector_size(), self.regs.data_next_sector, self.regs.block_len))
            } else {
                none
            };
            return (0xff, Ghost(o));
        }
        let value = self.regs.data[self.regs.data_offset];
        self.regs.data_offset = self.regs.data_offset + 1;
        if self.regs.data_offset >= self.regs.data.len() {
            if self.regs.data_multi_block {
                let sector = self.regs.data_next_sector;
                let block_len = self.regs.block_len;
                match self.read_sector_data(sector, block_len) {
                    Ok(d) => {
                        let ghost o: Result<Seq<u8>, StorageError> = Ok(d@);
                        self.regs.data = d;
                        self.regs.data_offset = 0;
                        self.regs.data_next_sector = sector + 1;
                        return (value, Ghost(o));
                    },
                    Err(e) => {
                        let ghost o: Result<Seq<u8>, StorageError> = Err(e);
                        self.regs.status_flags = status::ADDRESS_ERROR;
                        self.regs.data = Vec::new();
                        self.regs.data_offset = 0;
                        self.regs.data_multi_block = false;
                        self.regs.state = CardState::Transfer;
                        proof {
                            assert(self.regs.data@ =~= Seq::<u8>::empty());
                        }
                        return (value, Ghost(o));
                    },
                }
            } else {
                self.regs.state = CardState::Transfer;
            }
        }
        let ghost o: Result<Seq<u8>, StorageError> = if sector_in_medium(self.media.inner().contents(), self.media.sector_size(), self.regs.data_next_sector) {
            Ok(sector_data(self.media.inner().contents(), self.media.sector_size(), self.regs.data_next_sector, self.regs.block_len))
        } else {
            none
        };
        (value, Ghost(o))
    }
}

impl<B: BlockBackend> SdCard for SdMemoryCard<B> {
    open spec fn inv(&self) -> bool {
        self.media_view().wf()
    }

    open spec fn command_done(&self, req: SdRequest, resp_in: Seq<u8>, resp_out: Seq<u8>, n: int, after: Self) -> bool {
        &&& after.config_view() == self.config_view()
        &&& after.media_view().sector_size() == self.media_view().sector_size()
        &&& after.media_view().inner().is_readonly() == self.media_view().inner().is_readonly()
        &&& after.media_view().inner().reliable() == self.media_view().inner().reliable()
        &&& exists|outcome: Result<Seq<u8>, StorageError>|
            #[trigger] card_command_done(*self, after, req, resp_in, resp_out, n, outcome)
    }

    open spec fn can_receive(&self) -> bool {
        self.regs_view().state == CardState::ReceivingData && self.regs_view().data_offset
            < self.regs_view().data.len()
    }

    open spec fn has_data(&self) -> bool {
        self.regs_view().state == CardState::SendingData && self.regs_view().data_offset
            < self.regs_view().data.len()
    }

    open spec fn inserted(&self) -> bool {
        self.config_view().inserted
    }

    open spec fn write_protected(&self) -> bool {
        self.media_view().inner().is_readonly()
    }

    open spec fn dat_lines(&self) -> u8 {
        0b1111
    }

    open spec fn cmd_line(&self) -> bool {
        true
    }

    open spec fn voltage_set(&self, millivolts: u16, after: Self) -> bool {
        &&& after.regs_view() == self.regs_view()
        &&& after.media_view() == self.media_view()
        &&& after.config_view() == self.config_view()
    }

    open spec fn byte_written(&self, value: u8, after: Self) -> bool {
        &&& after.config_view() == self.config_view()
        &&& after.regs_view() == card_write_byte(self.regs_view(), value)
        &&& after.media_view().sector_size() == self.media_view().sector_size()
        &&& after.media_view().inner().is_readonly() == self.media_view().inner().is_readonly()
        &&& after.media_view().inner().reliable() == self.media_view().inner().reliable()
        &&& !write_completes_block(self.regs_view()) ==> after.media_view() == self.media_view()
        &&& write_completes_block(self.regs_view()) ==> exists|o: Result<(), StorageError>|
            #[trigger] block_store_ok(
                self.media_view().inner().contents(),
                self.media_view().sector_size(),
                self.media_view().inner().is_readonly(),
                self.media_view().inner().reliable(),
                self.regs_view().data_start_sector,
                self.regs_view().data.update(self.regs_view().data_offset as int, value),
                after.media_view().inner().contents(),
                o,
            )
    }

    open spec fn byte_read(&self, value: u8, after: Self) -> bool {
        &&& after.config_view() == self.config_view()
        &&& after.media_view() == self.media_view()
        &&& exists|outcome: Result<Seq<u8>, StorageError>|
            #[trigger] read_outcome_ok(
                self.regs_view(),
                self.media_view().inner().contents(),
                self.media_view().sector_size(),
                self.media_view().inner().reliable(),
                outcome,
            ) && (after.regs_view(), value) == card_read_byte(self.regs_view(), outcome)
    }

    /// Run command `req`: the state machine of the card's identification,
    /// data-transfer and erase commands (application commands after
    /// CMD55).
    fn do_command(&mut self, req: &SdRequest, resp: &mut [u8]) -> (r: usize)
        ensures
            final(self).config_view() == old(self).config_view(),
            final(self).media_view().sector_size() == old(self).media_view().sector_size(),
            final(self).media_view().inner().is_readonly() == old(self).media_view().inner().is_readonly(),
            final(self).media_view().inner().reliable() == old(self).media_view().inner().reliable(),
            exists|outcome: Result<Seq<u8>, StorageError>|
                #[trigger] card_command_done(*old(self), *final(self), *req, old(resp)@, final(resp)@, r as int, outcome),
    {
        let (n, o) = self.command(req, resp);
        proof {
            let oo = o@;
            assert(card_command_done(*old(self), *self, *req, old(resp)@, resp@, n as int, oo));
        }
        n
    }

    /// Receive a data byte; a completed block is stored on the medium.
    fn write_byte(&mut self, value: u8)
        ensures
            final(self).config_view() == old(self).config_view(),
            final(self).regs_view() == card_write_byte(old(self).regs_view(), value),
            final(self).media_view().sector_size() == old(self).media_view().sector_size(),
            final(self).media_view().inner().is_readonly() == old(self).media_view().inner().is_readonly(),
            final(self).media_view().inner().reliable() == old(self).media_view().inner().reliable(),
            !write_completes_block(old(self).regs_view()) ==> final(self).media_view() == old(self).media_view(),
            write_completes_block(old(self).regs_view()) ==> exists|o: Result<(), StorageError>|
                #[trigger] block_store_ok(
                    old(self).media_view().inner().contents(),
                    old(self).media_view().sector_size(),
                    old(self).media_view().inner().is_readonly(),
                    old(self).media_view().inner().reliable(),
                    old(self).regs_view().data_start_sector,
                    old(self).regs_view().data.update(old(self).regs_view().data_offset as int, value),
                    final(self).media_view().inner().contents(),
                    o,
                ),
    {
        if self.regs.state != CardState::ReceivingData || self.regs.data_offset >= self.regs.data.len() {
            return;
        }
        let offset = self.regs.data_offset;
        self.regs.data.set(offset, value);
        self.regs.data_offset = offset + 1;
        if self.regs.data_offset >= self.regs.data.len() {
            let start = self.regs.data_start_sector;
            let outcome = self.write_received_block(start);
            if self.regs.data_multi_block {
                self.regs.data_start_sector = self.regs.data_next_sector;
                self.regs.data_next_sector = self.regs.data_next_sector.wrapping_add(1);
                let len = self.regs.data.len();
                self.regs.data = vec![0u8; len];
                self.regs.data_offset = 0;
                proof {
                    assert(self.regs.data@ =~= Seq::new(len as nat, |i: int| 0u8));
                }
            } else {
                self.regs.state = CardState::Transfer;
            }
        }
        proof {
            assert(self.regs@ =~= card_write_byte(old(self).regs@, value));
        }
    }

    /// Deliver the next data byte (0xFF when none is pending); a
    /// multi-block read loads the next sector at a block boundary.
    fn read_byte(&mut self) -> (r: u8)
        ensures
            final(self).config_view() == old(self).config_view(),
            final(self).media_view() == old(self).media_view(),
            exists|outcome: Result<Seq<u8>, StorageError>|
                #[trigger] read_outcome_ok(
                    old(self).regs_view(),
                    old(self).media_view().inner().contents(),
                    old(self).media_view().sector_size(),
                    old(self).media_view().inner().reliable(),
                    outcome,
                ) && (final(self).regs_view(), r) == card_read_byte(old(self).regs_view(), outcome),
    {
        let (value, o) = self.read_byte_step();
        proof {
            let oo = o@;
            assert(read_outcome_ok(old(self).regs@, old(self).media.inner().contents(), old(self).media.sector_size(), old(self).media.inner().reliable(), oo));
        }
        value
    }

    /// Ready to receive while a write block is incomplete.
    fn receive_ready(&self) -> (r: bool)
        ensures
            r == (self.regs_view().state == CardState::ReceivingData && self.regs_view().data_offset
                < self.regs_view().data.len()),
    {
        self.regs.state == CardState::ReceivingData && self.regs.data_offset < self.regs.data.len()
    }

    /// Data ready while a read block is not yet fully delivered.
    fn data_ready(&self) -> (r: bool)
        ensures
            r == (self.regs_view().state == CardState::SendingData && self.regs_view().data_offset
                < self.regs_view().data.len()),
    {
        self.regs.state == CardState::SendingData && self.regs.data_offset < self.regs.data.len()
    }

    fn get_inserted(&self) -> (r: bool)
        ensures
            r == self.config_view().inserted,
    {
        self.config.inserted
    }

    fn get_readonly(&self) -> (r: bool)
        ensures
            r == self.media_view().inner().is_readonly(),
    {
        self.media.backend().readonly()
    }

    /// The supply voltage has no effect on the card.
    fn set_voltage(&mut self, millivolts: u16)
        ensures
            final(self).regs_view() == old(self).regs_view(),
            final(self).media_view() == old(self).media_view(),
            final(self).config_view() == old(self).config_view(),
    {
    }

    fn get_dat_lines(&self) -> (r: u8)
        ensures
            r == 0b1111,
    {
        0b1111
    }

    fn get_cmd_line(&self) -> (r: bool)
        ensures
            r,
    {
        true
    }
}


/// What a card's answers depend on: its registers, the bytes of its
/// medium, the medium's sector size and write protection, and its
/// configuration.
pub struct SdCardState {
    pub regs: CardView,
    pub contents: Seq<u8>,
    pub block_size: u32,
    pub readonly: bool,
    pub config: SdCardConfig,
}

impl<B: BlockBackend> SdMemoryCard<B> {
    /// The card as its answers see it.
    pub open spec fn card_state(&self) -> SdCardState {
        SdCardState {
            regs: self.regs_view(),
            contents: self.media_view().inner().contents(),
            block_size: self.media_view().sector_size(),
            readonly: self.media_view().inner().is_readonly(),
            config: self.config_view(),
        }
    }

    /// The card's answers are fixed by its state: its medium never fails
    /// on its own and its size is addressable.
    pub open spec fn steady(&self) -> bool {
        &&& self.inv()
        &&& self.media_view().inner().reliable()
        &&& self.media_view().inner().contents().len() <= u64::MAX
    }
}

/// The size of the card's medium in sectors.
pub open spec fn state_sectors(s: SdCardState) -> u64 {
    ((s.contents.len() as int) / (s.block_size as int)) as u64
}

/// The reading of sector `sector` of a medium that never fails.
pub open spec fn sector_read(contents: Seq<u8>, block_size: u32, sector: u64, block_len: usize) -> Result<
    Seq<u8>,
    StorageError,
> {
    if sector_in_medium(contents, block_size, sector) {
        Ok(sector_data(contents, block_size, sector, block_len))
    } else {
        Err(StorageError::OutOfRange)
    }
}

/// The result of the media work of command `req` on a medium that never
/// fails.
pub open spec fn steady_outcome(s: SdCardState, req: SdRequest) -> Result<Seq<u8>, StorageError> {
    let v = s.regs;
    let cmd = req.cmd;
    if !v.expecting_acmd && (cmd == 17 || cmd == 18) && v.state == CardState::Transfer
        && sector_of(req.arg) is Some {
        sector_read(s.contents, s.block_size, sector_of(req.arg)->0, v.block_len)
    } else if !v.expecting_acmd && cmd == 38 && v.state == CardState::Transfer
        && v.erase_start_sector is Some && v.erase_end_sector is Some {
        let start = v.erase_start_sector->0;
        let end = v.erase_end_sector->0;
        if start > end || end >= state_sectors(s) {
            Err(StorageError::OutOfRange)
        } else if s.readonly {
            Err(StorageError::ReadOnly)
        } else {
            Ok(Seq::empty())
        }
    } else {
        Ok(Seq::empty())
    }
}

/// The card after command `req`, and the response payload, when its
/// medium never fails.
pub open spec fn steady_command(s: SdCardState, req: SdRequest) -> (SdCardState, Seq<u8>) {
    let o = steady_outcome(s, req);
    let res = card_cmd(s.regs, s.config.rca, state_sectors(s), s.readonly, req, o);
    let v = s.regs;
    let erased = !v.expecting_acmd && req.cmd == 38 && v.state == CardState::Transfer
        && v.erase_start_sector is Some && v.erase_end_sector is Some && o is Ok;
    let contents = if erased {
        sectors_zeroed(s.contents, s.block_size, v.erase_start_sector->0, v.erase_end_sector->0)
    } else {
        s.contents
    };
    (SdCardState { regs: res.0, contents, ..s }, res.1)
}

/// The card after the host writes data byte `value`, when its medium
/// never fails.
pub open spec fn steady_write_byte(s: SdCardState, value: u8) -> SdCardState {
    let regs = card_write_byte(s.regs, value);
    if write_completes_block(s.regs) {
        let data = s.regs.data.update(s.regs.data_offset as int, value);
        let sector = s.regs.data_start_sector;
        let contents = if sector_in_medium(s.contents, s.block_size, sector) && !s.readonly {
            crate::storage::spliced(
                s.contents,
                sector * s.block_size,
                merged_block(s.contents, s.block_size, sector, data),
            )
        } else {
            s.contents
        };
        SdCardState { regs, contents, ..s }
    } else {
        SdCardState { regs, ..s }
    }
}

/// The card after the host reads a data byte, and that byte, when its
/// medium never fails.
pub open spec fn steady_read_byte(s: SdCardState) -> (SdCardState, u8) {
    let o = sector_read(s.contents, s.block_size, s.regs.data_next_sector, s.regs.block_len);
    let r = card_read_byte(s.regs, o);
    (SdCardState { regs: r.0, ..s }, r.1)
}

/// The card after the host writes the bytes of `data` in order.
pub open spec fn steady_write_all(s: SdCardState, data: Seq<u8>) -> SdCardState
    decreases data.len(),
{
    if data.len() == 0 {
        s
    } else {
        steady_write_byte(steady_write_all(s, data.drop_last()), data.last())
    }
}

/// The card after the host reads `n` data bytes, and those bytes.
pub open spec fn steady_read_all(s: SdCardState, n: nat) -> (SdCardState, Seq<u8>)
    decreases n,
{
    if n == 0 {
        (s, Seq::empty())
    } else {
        let p = steady_read_all(s, (n - 1) as nat);
        let q = steady_read_byte(p.0);
        (q.0, p.1.push(q.1))
    }
}

/// A command on a steady card ends as `steady_command` says.
pub proof fn lemma_steady_command<B: BlockBackend>(
    before: SdMemoryCard<B>,
    after: SdMemoryCard<B>,
    req: SdRequest,
    resp_in: Seq<u8>,
    resp_out: Seq<u8>,
    n: int,
)
    requires
        before.steady(),
        after.inv(),
        before.command_done(req, resp_in, resp_out, n, after),
    ensures
        after.steady(),
        after.card_state() == steady_command(before.card_state(), req).0,
        response_written(resp_in, resp_out, n, steady_command(before.card_state(), req).1),
{
    let outcome = choose|outcome: Result<Seq<u8>, StorageError>|
        #[trigger] card_command_done(before, after, req, resp_in, resp_out, n, outcome);
    let s = before.card_state();
    let o = steady_outcome(s, req);
    assert(state_sectors(s) == before.sectors());
    let a = card_cmd(s.regs, s.config.rca, state_sectors(s), s.readonly, req, outcome);
    let b = card_cmd(s.regs, s.config.rca, state_sectors(s), s.readonly, req, o);
    assert(a == b);
    assert(after.card_state().regs == b.0);
    let c0 = s.contents;
    let c1 = after.media_view().inner().contents();
    assert(c1 == steady_command(s, req).0.contents);
    assert(c1.len() == c0.len());
    assert(after.card_state() =~= steady_command(s, req).0);
}

/// A data byte written to a steady card ends as `steady_write_byte` says.
pub proof fn lemma_steady_write_byte<B: BlockBackend>(
    before: SdMemoryCard<B>,
    after: SdMemoryCard<B>,
    value: u8,
)
    requires
        before.steady(),
        after.inv(),
        before.byte_written(value, after),
    ensures
        after.steady(),
        after.card_state() == steady_write_byte(before.card_state(), value),
{
    let s = before.card_state();
    let c1 = after.media_view().inner().contents();
    if write_completes_block(s.regs) {
        let o = choose|o: Result<(), StorageError>|
            #[trigger] block_store_ok(
                s.contents,
                s.block_size,
                s.readonly,
                true,
                s.regs.data_start_sector,
                s.regs.data.update(s.regs.data_offset as int, value),
                c1,
                o,
            );
        assert(c1 == steady_write_byte(s, value).contents);
        assert(c1.len() == s.contents.len());
    }
    assert(after.card_state() =~= steady_write_byte(s, value));
}

/// A data byte read from a steady card is as `steady_read_byte` says.
pub proof fn lemma_steady_read_byte<B: BlockBackend>(
    before: SdMemoryCard<B>,
    after: SdMemoryCard<B>,
    value: u8,
)
    requires
        before.steady(),
        after.inv(),
        before.byte_read(value, after),
    ensures
        after.steady(),
        (after.card_state(), value) == steady_read_byte(before.card_state()),
{
    let s = before.card_state();
    let outcome = choose|outcome: Result<Seq<u8>, StorageError>|
        #[trigger] read_outcome_ok(s.regs, s.contents, s.block_size, true, outcome) && (
        after.regs_view(),
        value,
    ) == card_read_byte(s.regs, outcome);
    let o = sector_read(s.contents, s.block_size, s.regs.data_next_sector, s.regs.block_len);
    assert(card_read_byte(s.regs, outcome) == card_read_byte(s.regs, o));
    assert(after.card_state() =~= steady_read_byte(s).0);
}


proof fn lemma_steady_write_chain<B: BlockBackend>(states: Seq<SdMemoryCard<B>>, data: Seq<u8>)
    requires
        write_chain(states, data),
        states[0].steady(),
    ensures
        states.last().steady(),
        states.last().card_state() == steady_write_all(states[0].card_state(), data),
    decreases data.len(),
{
    if data.len() > 0 {
        let n = data.len() as int;
        let s2 = states.drop_last();
        let d2 = data.drop_last();
        assert forall|i: int| 0 <= i < d2.len() implies #[trigger] s2[i].byte_written(d2[i], s2[i + 1]) by {
            assert(states[i].byte_written(data[i], states[i + 1]));
        }
        assert forall|i: int| 0 <= i < s2.len() implies #[trigger] s2[i].inv() by {
            assert(states[i].inv());
        }
        lemma_steady_write_chain(s2, d2);
        assert(s2.last() == states[n - 1]);
        assert(states[n - 1].byte_written(data[n - 1], states[n]));
        assert(states[n].inv());
        lemma_steady_write_byte(states[n - 1], states[n], data[n - 1]);
    }
}

/// Data bytes written to a steady card end as `steady_write_all` says.
pub proof fn lemma_steady_bytes_written<B: BlockBackend>(
    before: SdMemoryCard<B>,
    data: Seq<u8>,
    after: SdMemoryCard<B>,
)
    requires
        before.steady(),
        bytes_written(before, data, after),
    ensures
        after.steady(),
        after.card_state() == steady_write_all(before.card_state(), data),
{
    let states = choose|states: Seq<SdMemoryCard<B>>|
        #[trigger] write_chain(states, data) && states[0] == before && states.last() == after;
    lemma_steady_write_chain(states, data);
}

proof fn lemma_steady_read_chain<B: BlockBackend>(states: Seq<SdMemoryCard<B>>, data: Seq<u8>)
    requires
        read_chain(states, data),
        states[0].steady(),
    ensures
        states.last().steady(),
        (states.last().card_state(), data) == steady_read_all(states[0].card_state(), data.len()),
    decreases data.len(),
{
    if data.len() > 0 {
        let n = data.len() as int;
        let s2 = states.drop_last();
        let d2 = data.drop_last();
        assert forall|i: int| 0 <= i < d2.len() implies #[trigger] s2[i].byte_read(d2[i], s2[i + 1]) by {
            assert(states[i].byte_read(data[i], states[i + 1]));
        }
        assert forall|i: int| 0 <= i < s2.len() implies #[trigger] s2[i].inv() by {
            assert(states[i].inv());
        }
        lemma_steady_read_chain(s2, d2);
        assert(s2.last() == states[n - 1]);
        assert(states[n - 1].byte_read(data[n - 1], states[n]));
        assert(states[n].inv());
        lemma_steady_read_byte(states[n - 1], states[n], data[n - 1]);
        assert(d2.push(data[n - 1]) =~= data);
    }
}

/// Data bytes read from a steady card are as `steady_read_all` says.
pub proof fn lemma_steady_bytes_read<B: BlockBackend>(
    before: SdMemoryCard<B>,
    data: Seq<u8>,
    after: SdMemoryCard<B>,
)
    requires
        before.steady(),
        bytes_read(before, data, after),
    ensures
        after.steady(),
        (after.card_state(), data) == steady_read_all(before.card_state(), data.len()),
{
    let states = choose|states: Seq<SdMemoryCard<B>>|
        #[trigger] read_chain(states, data) && states[0] == before && states.last() == after;
    lemma_steady_read_chain(states, data);
}


/// A steady card part way through a multiple-block read over 512-byte
/// sectors: the next byte it sends is byte `pos` of the medium.
spec fn multi_reading(c1: SdCardState, c: SdCardState, pos: int) -> bool {
    &&& c1.contents == c.contents
    &&& c1.block_size == 512
    &&& c1.regs.state == CardState::SendingData
    &&& c1.regs.data_multi_block
    &&& c1.regs.block_len == 512
    &&& c1.regs.data == c.contents.subrange((pos / 512) * 512, (pos / 512) * 512 + 512)
    &&& c1.regs.data_offset == pos % 512
    &&& c1.regs.data_next_sector == pos / 512 + 1
}

proof fn lemma_multi_read_from(c: SdCardState, c1: SdCardState, start: int, end: int, m: nat)
    requires
        start >= 0,
        start % 512 == 0,
        start < end,
        end % 512 == 0,
        end <= c.contents.len(),
        c.contents.len() <= u64::MAX,
        start + m <= end,
        multi_reading(c1, c, start),
    ensures
        steady_read_all(c1, m).1 == c.contents.subrange(start, start + m),
        start + m < end ==> multi_reading(steady_read_all(c1, m).0, c, start + m),
    decreases m,
{
    if m == 0 {
        assert(c.contents.subrange(start, start) =~= Seq::<u8>::empty());
    } else {
        let k = (m - 1) as nat;
        lemma_multi_read_from(c, c1, start, end, k);
        let p = steady_read_all(c1, k);
        let pos = start + k;
        let st = p.0;
        let v = st.regs;
        let q = pos / 512;
        let o = pos % 512;
        assert(pos == q * 512 + o && 0 <= o < 512) by {
            vstd::arithmetic::div_mod::lemma_fundamental_div_mod(pos, 512);
        }
        assert(q * 512 + 512 <= end) by {
            assert(end == (end / 512) * 512) by {
                vstd::arithmetic::div_mod::lemma_fundamental_div_mod(end, 512);
            }
            assert(q < end / 512) by (nonlinear_arith)
                requires
                    pos == q * 512 + o,
                    0 <= o < 512,
                    pos < end,
                    end == (end / 512) * 512,
            ;
            assert((q + 1) * 512 <= (end / 512) * 512) by (nonlinear_arith)
                requires
                    q < end / 512,
            ;
        }
        assert(v.data.len() == 512);
        assert(v.data[o] == c.contents[pos]);
        let out = steady_read_byte(st);
        assert(out.1 == c.contents[pos]);
        assert(p.1.push(out.1) =~= c.contents.subrange(start, start + m));
        if start + m < end {
            let pos1 = pos + 1;
            if o + 1 < 512 {
                assert(pos1 / 512 == q && pos1 % 512 == o + 1) by {
                    vstd::arithmetic::div_mod::lemma_fundamental_div_mod_converse(pos1, 512, q, o + 1);
                }
            } else {
                assert(pos1 / 512 == q + 1 && pos1 % 512 == 0) by {
                    vstd::arithmetic::div_mod::lemma_fundamental_div_mod_converse(pos1, 512, q + 1, 0);
                }
                assert((q + 1) * 512 + 512 <= end) by {
                    assert(end == (end / 512) * 512) by {
                        vstd::arithmetic::div_mod::lemma_fundamental_div_mod(end, 512);
                    }
                    assert(q + 1 < end / 512) by (nonlinear_arith)
                        requires
                            pos1 == (q + 1) * 512,
                            pos1 < end,
                            end == (end / 512) * 512,
                    ;
                    assert((q + 2) * 512 <= (end / 512) * 512) by (nonlinear_arith)
                        requires
                            q + 1 < end / 512,
                    ;
                }
                assert(sector_in_medium(c.contents, 512, v.data_next_sector));
                assert(sector_read(c.contents, 512, v.data_next_sector, 512) == Ok::<Seq<u8>, StorageError>(
                    c.contents.subrange((q + 1) * 512, (q + 1) * 512 + 512),
                ));
            }
        }
    }
}

/// A multiple-block read (CMD18) at sector `s` sends the medium's
/// sectors in order: the k-th block of its data phase is sector s + k.
/// Reading `m` data bytes after the command, within the `n` sectors from
/// `s` that lie in the medium, gives the medium's bytes from s * 512 on
/// (512-byte sectors and blocks, card in transfer state).
pub proof fn lemma_multi_block_read(c: SdCardState, req: SdRequest, s: u64, n: nat, m: nat)
    requires
        c.regs.state == CardState::Transfer,
        !c.regs.expecting_acmd,
        c.regs.block_len == 512,
        c.block_size == 512,
        req.cmd == 18,
        req.arg == s * 512,
        n >= 1,
        (s + n) * 512 <= c.contents.len(),
        c.contents.len() <= u64::MAX,
        m <= n * 512,
    ensures
        steady_read_all(steady_command(c, req).0, m).1 == c.contents.subrange(s * 512, s * 512 + m),
{
    let c1 = steady_command(c, req).0;
    assert(sector_of(req.arg) == Some(s)) by {
        assert((s * 512) % 512 == 0 && (s * 512) / 512 == s) by {
            vstd::arithmetic::div_mod::lemma_fundamental_div_mod_converse((s * 512) as int, 512, s as int, 0);
        }
    }
    assert(s * 512 + 512 <= c.contents.len()) by (nonlinear_arith)
        requires
            n >= 1,
            (s + n) * 512 <= c.contents.len(),
    ;
    assert(steady_outcome(c, req) == Ok::<Seq<u8>, StorageError>(
        c.contents.subrange(s * 512, s * 512 + 512),
    ));
    assert(((s * 512) as int) / 512 == s && ((s * 512) as int) % 512 == 0) by {
        vstd::arithmetic::div_mod::lemma_fundamental_div_mod_converse((s * 512) as int, 512, s as int, 0);
    }
    assert(multi_reading(c1, c, s * 512));
    let end = (s + n) * 512;
    assert(end % 512 == 0) by {
        vstd::arithmetic::div_mod::lemma_fundamental_div_mod_converse(end as int, 512, (s + n) as int, 0);
    }
    assert(s * 512 + m <= end) by (nonlinear_arith)
        requires
            m <= n * 512,
            end == (s + n) * 512,
    ;
    lemma_multi_read_from(c, c1, (s * 512) as int, end as int, m);
}


proof fn lemma_single_read_from(c1: SdCardState, block: Seq<u8>, m: nat)
    requires
        c1.regs.state == CardState::SendingData,
        !c1.regs.data_multi_block,
        c1.regs.data == block,
        c1.regs.data_offset == 0,
        block.len() == 512,
        m <= block.len(),
    ensures
        steady_read_all(c1, m).1 == block.take(m as int),
        m < block.len() ==> steady_read_all(c1, m).0.regs == (CardView { data_offset: m as usize, ..c1.regs }),
    decreases m,
{
    if m == 0 {
        assert(block.take(0) =~= Seq::<u8>::empty());
    } else {
        let k = (m - 1) as nat;
        lemma_single_read_from(c1, block, k);
        let p = steady_read_all(c1, k);
        let v = p.0.regs;
        assert(v == (CardView { data_offset: k as usize, ..c1.regs }));
        let o = sector_read(p.0.contents, p.0.block_size, v.data_next_sector, v.block_len);
        let r = card_read_byte(v, o);
        assert(v.data_offset < v.data.len());
        assert(r.1 == v.data[v.data_offset as int]);
        let q = steady_read_byte(p.0);
        assert(q.1 == r.1 && q.0.regs == r.0);
        assert(steady_read_all(c1, m) == (q.0, p.1.push(q.1)));
        assert(q.1 == block[k as int]);
        if m < block.len() {
            assert(q.0.regs == (CardView { data_offset: m as usize, ..v }));
            assert(q.0.regs =~= (CardView { data_offset: m as usize, ..c1.regs }));
        }
        assert(p.1.push(block[k as int]) =~= block.take(m as int));
    }
}

/// A single-block read (CMD18's one-block form, CMD17) at sector `s`
/// sends the medium's sector s: reading up to 512 data bytes after the
/// command gives the medium's bytes from s * 512 on (512-byte sectors
/// and blocks, card in transfer state, the sector inside the medium).
pub proof fn lemma_single_block_read(c: SdCardState, req: SdRequest, s: u64, m: nat)
    requires
        c.regs.state == CardState::Transfer,
        !c.regs.expecting_acmd,
        c.regs.block_len == 512,
        c.block_size == 512,
        req.cmd == 17,
        req.arg == s * 512,
        s * 512 + 512 <= c.contents.len(),
        m <= 512,
    ensures
        steady_read_all(steady_command(c, req).0, m).1 == c.contents.subrange(s * 512, s * 512 + m),
{
    let c1 = steady_command(c, req).0;
    assert(sector_of(req.arg) == Some(s)) by {
        vstd::arithmetic::div_mod::lemma_fundamental_div_mod_converse((s * 512) as int, 512, s as int, 0);
    }
    let block = c.contents.subrange(s * 512, s * 512 + 512);
    assert(steady_outcome(c, req) == Ok::<Seq<u8>, StorageError>(block));
    lemma_single_read_from(c1, block, m);
    assert(block.take(m as int) =~= c.contents.subrange(s * 512, s * 512 + m));
}

} // verus!
