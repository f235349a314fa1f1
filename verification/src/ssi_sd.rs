//! SPI-to-SD bridge: an SD card on the SPI bus, in the card's SPI mode.
//!
//! The bridge collects six-byte command frames, answers them after one
//! byte of delay, sends the data of a single-block read behind a start
//! token, and takes a single-block write as a start token, the block and
//! two CRC bytes.
use vstd::prelude::*;
use crate::bytes::{be_value, read_be_u32};
use crate::sd::card::{
    CardState, SdCardState, SdMemoryCard, lemma_steady_bytes_read, lemma_steady_bytes_written,
    lemma_steady_command, steady_command, steady_read_all, steady_write_all,
};
use crate::sd::{SdBus, SdBusHost, SdRequest};
use crate::spi::{SpiCsPolarity, SpiDevState, SpiSlave};
use crate::storage::BlockBackend;

verus! {

/// The level of an undriven data line.
pub const PULL_UP: u8 = 0xff;
/// The bits that mark the first byte of a command frame.
pub const COMMAND_START_MASK: u8 = 0xc0;
/// The value of those bits in the first byte of a command frame.
pub const COMMAND_START: u8 = 0x40;
/// The length of a command frame.
pub const COMMAND_LEN: usize = 6;
/// The token in front of a data block.
pub const DATA_START_TOKEN: u8 = 0xfe;
/// The answer to a data block that was taken.
pub const DATA_RESPONSE_ACCEPTED: u8 = 0x05;
/// The length of a data block.
pub const DEFAULT_BLOCK_LEN: usize = 512;
/// READ_SINGLE_BLOCK.
pub const CMD_READ_SINGLE_BLOCK: u8 = 17;
/// WRITE_BLOCK.
pub const CMD_WRITE_SINGLE_BLOCK: u8 = 24;

/// How far a data block written by the host has come.
#[derive(Clone, Copy, Debug, PartialEq, Eq, Structural)]
pub enum WritePhase {
    /// No write is under way.
    Idle,
    /// Waiting for the start token.
    WaitingToken,
    /// Taking the bytes of the block.
    Receiving,
    /// Taking the two CRC bytes after the block.
    ReceivingCrc,
}

/// What the bridge reaches of an SD card.
pub enum SdSlot {
    /// No SD bus is connected.
    Disconnected,
    /// The SD bus holds no card.
    Empty,
    /// The SD bus holds a card in this state.
    Card(SdCardState),
}

/// The bridge as the SPI bus sees it.
pub struct SsiSdState {
    pub selected: bool,
    pub command: Seq<u8>,
    pub response: Seq<u8>,
    pub delay: nat,
    pub phase: WritePhase,
    pub block: Seq<u8>,
    pub crc_seen: nat,
    pub slot: SdSlot,
    pub cs_index: u8,
}

/// The bridge with nothing pending and deselected.
pub open spec fn ssi_sd_reset(s: SsiSdState) -> SsiSdState {
    SsiSdState {
        selected: false,
        command: Seq::empty(),
        response: Seq::empty(),
        delay: 0,
        phase: WritePhase::Idle,
        block: Seq::empty(),
        crc_seen: 0,
        ..s
    }
}

/// The request a command frame carries: the command index in the low six
/// bits of its first byte, the argument big-endian in the next four.
pub open spec fn frame_request(packet: Seq<u8>) -> SdRequest {
    SdRequest { cmd: packet[0] & 0x3f, arg: be_value(packet, 1, 4) as u32, crc: 0 }
}

/// The card has data to deliver.
pub open spec fn state_has_data(c: SdCardState) -> bool {
    c.regs.state == CardState::SendingData && c.regs.data_offset < c.regs.data.len()
}

/// The card takes data.
pub open spec fn state_can_receive(c: SdCardState) -> bool {
    c.regs.state == CardState::ReceivingData && c.regs.data_offset < c.regs.data.len()
}

/// The bytes the bridge answers command frame `packet` with, what it
/// reaches of the card afterwards, and whether it then awaits a data
/// block to write.
pub open spec fn dispatch(slot: SdSlot, packet: Seq<u8>) -> (Seq<u8>, SdSlot, bool) {
    match slot {
        SdSlot::Card(c) => {
            let req = frame_request(packet);
            let done = steady_command(c, req);
            let c1 = done.0;
            let payload = done.1;
            if payload.len() == 0 || payload.len() > 16 {
                (seq![0u8], SdSlot::Card(c1), false)
            } else if req.cmd == CMD_READ_SINGLE_BLOCK && state_has_data(c1) {
                let rd = steady_read_all(c1, DEFAULT_BLOCK_LEN as nat);
                (payload.push(DATA_START_TOKEN) + rd.1 + seq![PULL_UP, PULL_UP], SdSlot::Card(rd.0), false)
            } else {
                (payload, SdSlot::Card(c1), req.cmd == CMD_WRITE_SINGLE_BLOCK && state_can_receive(c1))
            }
        },
        _ => (seq![PULL_UP], slot, false),
    }
}

/// What the bridge reaches of the card after a received block `data` is
/// handed on, and the answer to the host: accepted when an SD bus is
/// connected.
pub open spec fn complete_write(slot: SdSlot, data: Seq<u8>) -> (SdSlot, u32) {
    match slot {
        SdSlot::Disconnected => (slot, PULL_UP as u32),
        SdSlot::Empty => (slot, DATA_RESPONSE_ACCEPTED as u32),
        SdSlot::Card(c) => (SdSlot::Card(steady_write_all(c, data)), DATA_RESPONSE_ACCEPTED as u32),
    }
}

/// The bridge after byte `byte` is shifted in, and its answer.
pub open spec fn ssi_sd_transfer(s: SsiSdState, byte: u8) -> (SsiSdState, u32) {
    if !s.selected {
        (s, PULL_UP as u32)
    } else if s.response.len() > 0 {
        if s.delay > 0 {
            (SsiSdState { delay: (s.delay - 1) as nat, ..s }, PULL_UP as u32)
        } else {
            (SsiSdState { response: s.response.drop_first(), ..s }, s.response[0] as u32)
        }
    } else {
        match s.phase {
            WritePhase::Idle => {
                if s.command.len() == 0 && byte & COMMAND_START_MASK != COMMAND_START {
                    (s, PULL_UP as u32)
                } else {
                    let command = s.command.push(byte);
                    if command.len() == COMMAND_LEN {
                        let d = dispatch(s.slot, command);
                        (
                            SsiSdState {
                                command: Seq::empty(),
                                response: d.0,
                                delay: if d.0.len() > 0 { 1 } else { 0 },
                                phase: if d.2 { WritePhase::WaitingToken } else { s.phase },
                                slot: d.1,
                                ..s
                            },
                            PULL_UP as u32,
                        )
                    } else {
                        (SsiSdState { command, ..s }, PULL_UP as u32)
                    }
                }
            },
            WritePhase::WaitingToken => {
                if byte == DATA_START_TOKEN {
                    (SsiSdState { phase: WritePhase::Receiving, block: Seq::empty(), ..s }, PULL_UP as u32)
                } else {
                    (s, PULL_UP as u32)
                }
            },
            WritePhase::Receiving => {
                let block = s.block.push(byte);
                if block.len() == DEFAULT_BLOCK_LEN {
                    (SsiSdState { phase: WritePhase::ReceivingCrc, block, crc_seen: 0, ..s }, PULL_UP as u32)
                } else {
                    (SsiSdState { block, ..s }, PULL_UP as u32)
                }
            },
            WritePhase::ReceivingCrc => {
                if s.crc_seen >= 1 {
                    let w = complete_write(s.slot, s.block);
                    (SsiSdState { phase: WritePhase::Idle, slot: w.0, ..s }, w.1)
                } else {
                    (SsiSdState { crc_seen: s.crc_seen + 1, ..s }, PULL_UP as u32)
                }
            },
        }
    }
}

/// The bridge after its chip-select line is driven to `cs` (active low):
/// a change of selection drops what was pending.
pub open spec fn ssi_sd_set_cs(s: SsiSdState, cs: bool) -> SsiSdState {
    let selected = !cs;
    if s.selected != selected {
        SsiSdState {
            selected,
            command: Seq::empty(),
            response: Seq::empty(),
            delay: 0,
            phase: WritePhase::Idle,
            ..s
        }
    } else {
        s
    }
}

impl SpiDevState for SsiSdState {
    open spec fn reply(&self, val: u32) -> u32 {
        ssi_sd_transfer(*self, val as u8).1
    }

    open spec fn after_transfer(&self, val: u32) -> Self {
        ssi_sd_transfer(*self, val as u8).0
    }

    open spec fn after_cs(&self, cs: bool) -> Self {
        ssi_sd_set_cs(*self, cs)
    }

    open spec fn polarity(&self) -> SpiCsPolarity {
        SpiCsPolarity::Low
    }

    open spec fn index(&self) -> u8 {
        self.cs_index
    }
}

/// The SD bus a bridge drives, if any.
struct SdLink<B: BlockBackend, H: SdBusHost> {
    bus: Option<SdBus<SdMemoryCard<B>, H>>,
}

/// An SD card behind an SPI bridge on chip select `cs_index`.
pub struct SsiSd<B: BlockBackend, H: SdBusHost> {
    selected: bool,
    command: Vec<u8>,
    response: Vec<u8>,
    response_delay: usize,
    phase: WritePhase,
    block: Vec<u8>,
    crc_seen: usize,
    link: SdLink<B, H>,
    cs_index: u8,
}

/// What a bridge holding `bus` reaches of its card.
pub open spec fn bus_slot<B: BlockBackend, H: SdBusHost>(bus: Option<SdBus<SdMemoryCard<B>, H>>) -> SdSlot {
    match bus {
        None => SdSlot::Disconnected,
        Some(b) => match b.card {
            None => SdSlot::Empty,
            Some(c) => SdSlot::Card(c.card_state()),
        },
    }
}

impl<B: BlockBackend, H: SdBusHost> SdLink<B, H> {
    /// A connected SD bus is consistent, and its card, if any, answers
    /// as its state says.
    #[verifier::type_invariant]
    spec fn inv(self) -> bool {
        self.bus matches Some(b) ==> (b.wf() && (b.card matches Some(c) ==> c.steady()))
    }

    /// What the link reaches of the card.
    closed spec fn slot(&self) -> SdSlot {
        bus_slot(self.bus)
    }

    /// Send command frame `packet` to the card; returns the answer and
    /// whether a data block to write is now awaited.
    fn dispatch_packet(&mut self, packet: &Vec<u8>) -> (r: (Vec<u8>, bool))
        requires
            packet@.len() == COMMAND_LEN,
        ensures
            (r.0@, final(self).slot(), r.1) == dispatch(old(self).slot(), packet@),
    {
        proof {
            use_type_invariant(&*self);
        }
        let mut bo: Option<SdBus<SdMemoryCard<B>, H>> = None;
        std::mem::swap(&mut bo, &mut self.bus);
        match bo {
            None => {
                self.bus = None;
                (vec![PULL_UP], false)
            },
            Some(mut bus) => {
                let cmd = packet[0] & 0x3f;
                let arg = read_be_u32(packet.as_slice(), 1);
                let req = SdRequest::new(cmd, arg);
                proof {
                    assert(req == frame_request(packet@));
                }
                let mut response: Vec<u8> = vec![0u8; 16];
                let ghost zeros = response@;
                let ghost c0 = bus.card;
                let res = bus.do_command(&req, response.as_mut_slice());
                match res {
                    Err(_) => {
                        self.bus = Some(bus);
                        (vec![PULL_UP], false)
                    },
                    Ok(n) => {
                        let ghost done = steady_command(c0->0.card_state(), req);
                        proof {
                            lemma_steady_command(c0->0, bus.card->0, req, zeros, response@, n as int);
                        }
                        if n == 0 {
                            self.bus = Some(bus);
                            return (vec![0u8], false);
                        }
                        let mut out: Vec<u8> = Vec::new();
                        let mut i: usize = 0;
                        while i < n
                            invariant
                                i <= n,
                                n <= response@.len(),
                                out@ == response@.take(i as int),
                            decreases n - i,
                        {
                            out.push(response[i]);
                            proof {
                                assert(out@ =~= response@.take(i + 1));
                            }
                            i = i + 1;
                        }
                        proof {
                            assert(out@ =~= done.1);
                        }
                        if cmd == CMD_READ_SINGLE_BLOCK && bus.data_ready() {
                            out.push(DATA_START_TOKEN);
                            let mut block: Vec<u8> = vec![PULL_UP; DEFAULT_BLOCK_LEN];
                            let ghost c1 = bus.card->0;
                            bus.read_data(block.as_mut_slice());
                            proof {
                                lemma_steady_bytes_read(c1, block@, bus.card->0);
                            }
                            let ghost head = out@;
                            let mut j: usize = 0;
                            while j < DEFAULT_BLOCK_LEN
                                invariant
                                    j <= DEFAULT_BLOCK_LEN,
                                    block@.len() == DEFAULT_BLOCK_LEN,
                                    out@ == head + block@.take(j as int),
                                decreases DEFAULT_BLOCK_LEN - j,
                            {
                                out.push(block[j]);
                                proof {
                                    assert(out@ =~= head + block@.take(j + 1));
                                }
                                j = j + 1;
                            }
                            out.push(PULL_UP);
                            out.push(PULL_UP);
                            proof {
                                assert(block@.take(DEFAULT_BLOCK_LEN as int) =~= block@);
                                assert(out@ =~= done.1.push(DATA_START_TOKEN) + block@ + seq![PULL_UP, PULL_UP]);
                            }
                            self.bus = Some(bus);
                            (out, false)
                        } else {
                            let arm = cmd == CMD_WRITE_SINGLE_BLOCK && bus.receive_ready();
                            self.bus = Some(bus);
                            (out, arm)
                        }
                    },
                }
            },
        }
    }

    /// Hand the received block `data` to the card; returns the answer to
    /// the host.
    fn complete_write_data(&mut self, data: &Vec<u8>) -> (r: u32)
        ensures
            (final(self).slot(), r) == complete_write(old(self).slot(), data@),
    {
        proof {
            use_type_invariant(&*self);
        }
        let mut bo: Option<SdBus<SdMemoryCard<B>, H>> = None;
        std::mem::swap(&mut bo, &mut self.bus);
        match bo {
            None => {
                self.bus = None;
                PULL_UP as u32
            },
            Some(mut bus) => {
                let ghost c0 = bus.card;
                bus.write_data(data.as_slice());
                proof {
                    if c0 is Some {
                        lemma_steady_bytes_written(c0->0, data@, bus.card->0);
                    }
                }
                self.bus = Some(bus);
                DATA_RESPONSE_ACCEPTED as u32
            },
        }
    }
}

impl<B: BlockBackend, H: SdBusHost> SsiSd<B, H> {
    /// The bridge as the SPI bus sees it.
    pub closed spec fn view_state(&self) -> SsiSdState {
        SsiSdState {
            selected: self.selected,
            command: self.command@,
            response: self.response@,
            delay: self.response_delay as nat,
            phase: self.phase,
            block: self.block@,
            crc_seen: self.crc_seen as nat,
            slot: self.link.slot(),
            cs_index: self.cs_index,
        }
    }

    /// A bridge on chip select `cs_index` with no SD bus connected.
    pub fn new(cs_index: u8) -> (r: Self)
        ensures
            r.view_state() == (SsiSdState {
                selected: false,
                command: Seq::empty(),
                response: Seq::empty(),
                delay: 0,
                phase: WritePhase::Idle,
                block: Seq::empty(),
                crc_seen: 0,
                slot: SdSlot::Disconnected,
                cs_index,
            }),
    {
        SsiSd {
            selected: false,
            command: Vec::new(),
            response: Vec::new(),
            response_delay: 0,
            phase: WritePhase::Idle,
            block: Vec::new(),
            crc_seen: 0,
            link: SdLink { bus: None },
            cs_index,
        }
    }

    /// Connect the SD bus the bridge drives, replacing any earlier one.
    /// Its card, if any, must answer as its state says (see
    /// [`SdMemoryCard::steady`]).
    pub fn connect_sd_bus(&mut self, bus: SdBus<SdMemoryCard<B>, H>)
        requires
            bus.wf(),
            bus.card matches Some(c) ==> c.steady(),
        ensures
            final(self).view_state() == (SsiSdState { slot: bus_slot(Some(bus)), ..old(self).view_state() }),
    {
        self.link = SdLink { bus: Some(bus) };
    }

    /// Drop what is pending and deselect the bridge.
    pub fn reset_runtime(&mut self)
        ensures
            final(self).view_state() == ssi_sd_reset(old(self).view_state()),
    {
        self.selected = false;
        self.command = Vec::new();
        self.response = Vec::new();
        self.response_delay = 0;
        self.phase = WritePhase::Idle;
        self.block = Vec::new();
        self.crc_seen = 0;
    }
}


impl<B: BlockBackend, H: SdBusHost> Default for SsiSd<B, H> {
    /// A bridge on chip select 0 with no SD bus connected.
    fn default() -> (r: Self)
        ensures
            r.view_state() == (SsiSdState {
                selected: false,
                command: Seq::empty(),
                response: Seq::empty(),
                delay: 0,
                phase: WritePhase::Idle,
                block: Seq::empty(),
                crc_seen: 0,
                slot: SdSlot::Disconnected,
                cs_index: 0,
            }),
    {
        Self::new(0)
    }
}

impl<B: BlockBackend, H: SdBusHost> SpiSlave for SsiSd<B, H> {
    type State = SsiSdState;

    closed spec fn state(&self) -> SsiSdState {
        self.view_state()
    }

    fn transfer(&mut self, val: u32) -> (r: u32) {
        let byte = val as u8;
        if !self.selected {
            return PULL_UP as u32;
        }
        if self.response.len() > 0 {
            if self.response_delay > 0 {
                self.response_delay = self.response_delay - 1;
                return PULL_UP as u32;
            }
            let b = self.response.remove(0);
            proof {
                assert(self.response@ =~= old(self).response@.drop_first());
            }
            return b as u32;
        }
        match self.phase {
            WritePhase::Idle => {
                if self.command.len() == 0 && byte & COMMAND_START_MASK != COMMAND_START {
                    return PULL_UP as u32;
                }
                self.command.push(byte);
                if self.command.len() == COMMAND_LEN {
                    let mut packet: Vec<u8> = Vec::new();
                    std::mem::swap(&mut packet, &mut self.command);
                    let (resp, arm) = self.link.dispatch_packet(&packet);
                    self.response = resp;
                    self.response_delay = if self.response.len() > 0 {
                        1
                    } else {
                        0
                    };
                    if arm {
                        self.phase = WritePhase::WaitingToken;
                    }
                }
                PULL_UP as u32
            },
            WritePhase::WaitingToken => {
                if byte == DATA_START_TOKEN {
                    self.phase = WritePhase::Receiving;
                    self.block = Vec::new();
                }
                PULL_UP as u32
            },
            WritePhase::Receiving => {
                self.block.push(byte);
                if self.block.len() == DEFAULT_BLOCK_LEN {
                    self.phase = WritePhase::ReceivingCrc;
                    self.crc_seen = 0;
                }
                PULL_UP as u32
            },
            WritePhase::ReceivingCrc => {
                if self.crc_seen >= 1 {
                    self.phase = WritePhase::Idle;
                    self.link.complete_write_data(&self.block)
                } else {
                    self.crc_seen = self.crc_seen + 1;
                    PULL_UP as u32
                }
            },
        }
    }

    fn set_cs(&mut self, cs: bool) {
        let selected = !cs;
        if self.selected != selected {
            self.command = Vec::new();
            self.response = Vec::new();
            self.response_delay = 0;
            self.phase = WritePhase::Idle;
        }
        self.selected = selected;
    }

    fn cs_polarity(&self) -> (r: SpiCsPolarity) {
        SpiCsPolarity::Low
    }

    fn cs_index(&self) -> (r: u8) {
        self.cs_index
    }
}

} // verus!
