//! ARM PrimeCell PL181 multimedia card interface: an SD host controller
//! with a command path and a byte FIFO for single-transfer data.
use vstd::prelude::*;
use crate::sd::{bytes_written, SdBus, SdBusHost, SdCard, SdRequest};

verus! {

pub const REG_POWER: u64 = 0x00;
pub const REG_CLOCK: u64 = 0x04;
pub const REG_ARGUMENT: u64 = 0x08;
pub const REG_COMMAND: u64 = 0x0c;
pub const REG_RESPCMD: u64 = 0x10;
pub const REG_RESPONSE0: u64 = 0x14;
pub const REG_RESPONSE1: u64 = 0x18;
pub const REG_RESPONSE2: u64 = 0x1c;
pub const REG_RESPONSE3: u64 = 0x20;
pub const REG_DATATIMER: u64 = 0x24;
pub const REG_DATALENGTH: u64 = 0x28;
pub const REG_DATACTRL: u64 = 0x2c;
pub const REG_DATACNT: u64 = 0x30;
pub const REG_STATUS: u64 = 0x34;
pub const REG_CLEAR: u64 = 0x38;
pub const REG_MASK0: u64 = 0x3c;
pub const REG_MASK1: u64 = 0x40;
pub const REG_FIFO: u64 = 0x80;
pub const PL181_IRQ0: u32 = 0;
pub const PL181_IRQ1: u32 = 1;
pub const COMMAND_INDEX_MASK: u32 = 0x3f;
pub const COMMAND_RESPONSE: u32 = 0x40;
pub const COMMAND_ENABLE: u32 = 0x400;
pub const DATACTRL_ENABLE: u32 = 0x1;
pub const DATACTRL_DIRECTION: u32 = 0x2;
pub const STATUS_COMMAND_TIMEOUT: u32 = 0x4;
pub const STATUS_COMMAND_RESPONSE_END: u32 = 0x40;
pub const STATUS_COMMAND_SENT: u32 = 0x80;
pub const STATUS_DATA_END: u32 = 0x100;
pub const STATUS_DATA_BLOCK_END: u32 = 0x400;
pub const STATUS_TX_FIFO_EMPTY: u32 = 0x4_0000;
pub const STATUS_RX_FIFO_EMPTY: u32 = 0x8_0000;
pub const STATUS_RX_DATA_AVAILABLE: u32 = 0x20_0000;
pub const RESET_STATUS: u32 = 0xC_0000;
pub const DEFAULT_BLOCK_LEN: usize = 512;
pub const CMD_READ_SINGLE_BLOCK: u8 = 17;
pub const CMD_READ_MULTIPLE_BLOCK: u8 = 18;
pub const CMD_WRITE_BLOCK: u8 = 24;
pub const CMD_WRITE_MULTIPLE_BLOCK: u8 = 25;

/// The mask of a `size`-byte access (0 for other sizes).
pub open spec fn size_mask(size: u32) -> u64 {
    if size == 1 {
        0xff
    } else if size == 2 {
        0xffff
    } else if size == 4 {
        0xffff_ffff
    } else if size == 8 {
        u64::MAX
    } else {
        0
    }
}

fn mask_for_size(size: u32) -> (r: u64)
    ensures
        r == size_mask(size),
{
    if size == 1 {
        0xff
    } else if size == 2 {
        0xffff
    } else if size == 4 {
        0xffff_ffff
    } else if size == 8 {
        u64::MAX
    } else {
        0
    }
}

/// The register file of a PL181.
pub struct Pl181Regs {
    pub power: u32,
    pub clock: u32,
    pub argument: u32,
    pub command: u32,
    pub response_cmd: u32,
    pub response: [u32; 4],
    pub data_timer: u32,
    pub data_length: u32,
    pub data_ctrl: u32,
    pub data_count: u32,
    pub status: u32,
    pub mask0: u32,
    pub mask1: u32,
    pub data_buffer: Vec<u8>,
    pub data_offset: usize,
    pub write_transfer_active: bool,
    pub write_transfer_len: usize,
}

/// The value of plain register `offset` (0 for the FIFO and unknown
/// offsets).
pub open spec fn reg_value(r: Pl181Regs, offset: u64) -> u32 {
    if offset == REG_POWER { r.power }
    else if offset == REG_CLOCK { r.clock }
    else if offset == REG_ARGUMENT { r.argument }
    else if offset == REG_COMMAND { r.command }
    else if offset == REG_RESPCMD { r.response_cmd }
    else if offset == REG_RESPONSE0 { r.response[0] }
    else if offset == REG_RESPONSE1 { r.response[1] }
    else if offset == REG_RESPONSE2 { r.response[2] }
    else if offset == REG_RESPONSE3 { r.response[3] }
    else if offset == REG_DATATIMER { r.data_timer }
    else if offset == REG_DATALENGTH { r.data_length }
    else if offset == REG_DATACTRL { r.data_ctrl }
    else if offset == REG_DATACNT { r.data_count }
    else if offset == REG_STATUS { r.status }
    else if offset == REG_MASK0 { r.mask0 }
    else if offset == REG_MASK1 { r.mask1 }
    else { 0 }
}

/// An access that is split into aligned pieces: 2, 4 or 8 bytes at an
/// offset that is not a multiple of the size.
pub open spec fn needs_split(offset: u64, size: u32) -> bool {
    (size == 2 || size == 4 || size == 8) && offset % (size as u64) != 0
}

/// The largest aligned piece (8, 4, 2 or 1 bytes) at `offset` that fits
/// in `remaining` bytes.
pub open spec fn chunk_size(offset: u64, remaining: u32) -> u32 {
    if remaining >= 8 && offset % 8 == 0 {
        8
    } else if remaining >= 4 && offset % 4 == 0 {
        4
    } else if remaining >= 2 && offset % 2 == 0 {
        2
    } else {
        1
    }
}

fn aligned_chunk_size(offset: u64, remaining: u32) -> (r: u32)
    ensures
        r == chunk_size(offset, remaining),
{
    if remaining >= 8 && offset % 8 == 0 {
        8
    } else if remaining >= 4 && offset % 4 == 0 {
        4
    } else if remaining >= 2 && offset % 2 == 0 {
        2
    } else {
        1
    }
}

/// The big-endian word at `off` of the response bytes.
fn be_word(resp: &Vec<u8>, off: usize) -> (r: u32)
    requires
        off + 4 <= resp@.len(),
    ensures
        r as nat == crate::bytes::be_value(resp@, off as int, 4),
{
    let v = crate::bytes::read_be_u32(resp.as_slice(), off);
    v
}

/// How many bytes a FIFO write of `size` bytes adds to a write transfer
/// of `total` bytes that already holds `have`: at most four, and never
/// past the end of the transfer.
pub open spec fn fifo_take(size: u32, total: int, have: int) -> int {
    let len = if size < 4 {
        size as int
    } else {
        4
    };
    let remaining = if total > have {
        total - have
    } else {
        0
    };
    if len < remaining {
        len
    } else {
        remaining
    }
}

/// Byte `k` of `value`, least significant first.
pub open spec fn fifo_byte(value: u32, k: int) -> u8 {
    ((value >> ((k * 8) as u32)) % 256) as u8
}

/// The transfer buffer `buf` after a FIFO write of `size` bytes of
/// `value` into a transfer of `total` bytes.
pub open spec fn fifo_appended(buf: Seq<u8>, size: u32, value: u32, total: int) -> Seq<u8> {
    buf + Seq::new(fifo_take(size, total, buf.len() as int) as nat, |k: int| fifo_byte(value, k))
}

/// A PL181 controller, optionally connected to an SD bus.
pub struct Pl181<C: SdCard, H: SdBusHost> {
    pub regs: Pl181Regs,
    pub bus: Option<SdBus<C, H>>,
}

impl<C: SdCard, H: SdBusHost> Pl181<C, H> {
    pub open spec fn wf(&self) -> bool {
        &&& self.regs.data_offset <= self.regs.data_buffer@.len() <= 0x1_0000
        &&& self.regs.write_transfer_len <= 0x1_0000
        &&& match self.bus {
            Some(b) => b.wf(),
            None => true,
        }
    }

    /// The interrupt levels of the two outputs.
    pub open spec fn irq_spec(&self) -> (bool, bool) {
        (self.regs.status & self.regs.mask0 != 0, self.regs.status & self.regs.mask1 != 0)
    }

    fn initial_regs() -> (r: Pl181Regs)
        ensures
            r.status == RESET_STATUS,
            r.power == 0 && r.clock == 0 && r.argument == 0 && r.command == 0 && r.response_cmd == 0,
            r.response@ == seq![0u32, 0u32, 0u32, 0u32],
            r.data_timer == 0 && r.data_length == 0 && r.data_ctrl == 0 && r.data_count == 0,
            r.mask0 == 0 && r.mask1 == 0,
            r.data_buffer@.len() == 0 && r.data_offset == 0,
            !r.write_transfer_active && r.write_transfer_len == 0,
    {
        let r = Pl181Regs {
            power: 0,
            clock: 0,
            argument: 0,
            command: 0,
            response_cmd: 0,
            response: [0u32; 4],
            data_timer: 0,
            data_length: 0,
            data_ctrl: 0,
            data_count: 0,
            status: RESET_STATUS,
            mask0: 0,
            mask1: 0,
            data_buffer: Vec::new(),
            data_offset: 0,
            write_transfer_active: false,
            write_transfer_len: 0,
        };
        proof {
            assert(r.response@ =~= seq![0u32, 0u32, 0u32, 0u32]);
        }
        r
    }

    /// A controller in its reset state, with no bus.
    pub fn new() -> (r: Self)
        ensures
            r.wf(),
            r.bus is None,
            r.regs.status == RESET_STATUS && r.regs.mask0 == 0 && r.regs.mask1 == 0,
            r.regs.data_buffer@.len() == 0 && !r.regs.write_transfer_active,
    {
        Pl181 { regs: Self::initial_regs(), bus: None }
    }

    /// Connect the controller to `bus`.
    pub fn connect_bus(&mut self, bus: SdBus<C, H>)
        requires
            old(self).wf(),
            bus.wf(),
        ensures
            final(self).wf(),
            final(self).bus == Some(bus),
            final(self).regs == old(self).regs,
    {
        self.bus = Some(bus);
    }

    /// Reset the registers; give the interrupt levels.
    pub fn reset_runtime(&mut self) -> (irq: (bool, bool))
        requires
            old(self).wf(),
        ensures
            final(self).wf(),
            final(self).bus == old(self).bus,
            final(self).regs.status == RESET_STATUS && final(self).regs.mask0 == 0 && final(self).regs.mask1 == 0,
            final(self).regs.data_buffer@.len() == 0 && !final(self).regs.write_transfer_active,
            irq == (false, false),
    {
        self.regs = Self::initial_regs();
        (false, false)
    }

    fn irq_levels(&self) -> (r: (bool, bool))
        ensures
            r == self.irq_spec(),
    {
        (self.regs.status & self.regs.mask0 != 0, self.regs.status & self.regs.mask1 != 0)
    }

    /// A read of `size` bytes at `offset`; gives the value and the
    /// interrupt levels when the read changed them. Accesses of 2, 4 or
    /// 8 bytes that are not aligned, and aligned 8-byte accesses, are
    /// made of smaller aligned reads.
    pub fn read_reg(&mut self, offset: u64, size: u32) -> (r: (u64, Option<(bool, bool)>))
        requires
            old(self).wf(),
            needs_split(offset, size) ==> offset + size <= u64::MAX,
        ensures
            final(self).wf(),
            final(self).bus == old(self).bus,
            !needs_split(offset, size) && size != 8 && offset != REG_FIFO ==> r == (
                (reg_value(old(self).regs, offset) as u64) & size_mask(size),
                None::<(bool, bool)>,
            ) && final(self).regs == old(self).regs,
            !needs_split(offset, size) && size != 8 && offset == REG_FIFO ==> ({
                let s = old(self).regs;
                let n = if size <= 8 { size as int } else { 8 };
                let take = if s.data_buffer@.len() - s.data_offset < n { s.data_buffer@.len() - s.data_offset } else { n };
                let bytes = s.data_buffer@.subrange(s.data_offset as int, s.data_offset + take);
                let drained = s.data_offset + take >= s.data_buffer@.len() && s.data_buffer@.len() > 0;
                &&& r.0 == crate::pflash::bytes_value(bytes, false) as u64 & size_mask(size)
                &&& drained ==> final(self).regs.data_buffer@.len() == 0 && final(self).regs.data_offset == 0
                    && final(self).regs.status == (s.status & !STATUS_RX_DATA_AVAILABLE) | (STATUS_RX_FIFO_EMPTY | STATUS_DATA_END | STATUS_DATA_BLOCK_END)
                    && final(self).regs.data_count == 0 && r.1 == Some(final(self).irq_spec())
                &&& !drained ==> final(self).regs.data_offset == s.data_offset + take && final(self).regs.data_buffer
                    == s.data_buffer && final(self).regs.status == s.status && r.1 is None
                    && final(self).regs.data_count == (s.data_buffer@.len() - (s.data_offset + take)) as u32
            }),
        decreases size,
    {
        if (size == 2 || size == 4 || size == 8) && offset % (size as u64) != 0 {
            let mut value: u64 = 0;
            let mut done: u32 = 0;
            let mut irq: Option<(bool, bool)> = None;
            while done < size
                invariant
                    self.wf(),
                    self.bus == old(self).bus,
                    done <= size <= 8,
                    size == 2 || size == 4 || size == 8,
                    offset % (size as u64) != 0,
                    offset + size <= u64::MAX,
                decreases size - done,
            {
                let cur = offset + done as u64;
                let chunk = aligned_chunk_size(cur, size - done);
                proof {
                    if chunk == size {
                        assert(done == 0);
                        assert(cur == offset);
                    }
                }
                let (v, i) = self.read_reg(cur, chunk);
                if i.is_some() {
                    irq = i;
                }
                let m = mask_for_size(chunk);
                let piece = v & m;
                value = value | (piece << ((done * 8) as u64));
                done = done + chunk;
            }
            return (value, irq);
        }
        if size == 8 {
            assert(offset % 4 == 0 && offset <= u64::MAX - 7 && (offset + 4) % 4 == 0) by {
                assert(offset % 8 == 0);
            }
            let (lo, i1) = self.read_reg(offset, 4);
            let (hi, i2) = self.read_reg(offset.wrapping_add(4), 4);
            let irq = if i2.is_some() {
                i2
            } else {
                i1
            };
            return (lo | (hi << 32u64), irq);
        }
        if offset == REG_FIFO {
            return self.read_fifo(size);
        }
        let v: u32 = if offset == REG_POWER {
            self.regs.power
        } else if offset == REG_CLOCK {
            self.regs.clock
        } else if offset == REG_ARGUMENT {
            self.regs.argument
        } else if offset == REG_COMMAND {
            self.regs.command
        } else if offset == REG_RESPCMD {
            self.regs.response_cmd
        } else if offset == REG_RESPONSE0 {
            self.regs.response[0]
        } else if offset == REG_RESPONSE1 {
            self.regs.response[1]
        } else if offset == REG_RESPONSE2 {
            self.regs.response[2]
        } else if offset == REG_RESPONSE3 {
            self.regs.response[3]
        } else if offset == REG_DATATIMER {
            self.regs.data_timer
        } else if offset == REG_DATALENGTH {
            self.regs.data_length
        } else if offset == REG_DATACTRL {
            self.regs.data_ctrl
        } else if offset == REG_DATACNT {
            self.regs.data_count
        } else if offset == REG_STATUS {
            self.regs.status
        } else if offset == REG_MASK0 {
            self.regs.mask0
        } else if offset == REG_MASK1 {
            self.regs.mask1
        } else {
            0
        };
        ((v as u64) & mask_for_size(size), None)
    }

    /// Send command `command` with `argument` to the card; on success
    /// latch the response and start the data transfer that the command
    /// and the data control register call for. Gives the interrupt
    /// levels.
    fn dispatch_command(&mut self, command: u32, argument: u32) -> (irq: (bool, bool))
        requires
            old(self).wf(),
        ensures
            final(self).wf(),
            irq == final(self).irq_spec(),
            final(self).regs.mask0 == old(self).regs.mask0 && final(self).regs.mask1 == old(self).regs.mask1,
            final(self).regs.command == old(self).regs.command && final(self).regs.argument == old(self).regs.argument,
            final(self).bus is Some <==> old(self).bus is Some,
            (old(self).bus is None || old(self).bus->0.card is None) ==> final(self).regs.status == old(self).regs.status
                | STATUS_COMMAND_TIMEOUT && final(self).regs.data_buffer == old(self).regs.data_buffer
                && final(self).regs.response == old(self).regs.response,
    {
        let cmd = (command & COMMAND_INDEX_MASK) as u8;
        assert(command & COMMAND_INDEX_MASK < 64) by (bit_vector);
        let mut response: Vec<u8> = vec![0u8; 16];
        let res = match &mut self.bus {
            Some(bus) => bus.do_command(&SdRequest::new(cmd, argument), response.as_mut_slice()),
            None => Err(crate::sd::SdError::NoCard),
        };
        match res {
            Ok(n) => {
                let read_enabled = self.regs.data_ctrl & DATACTRL_ENABLE != 0 && self.regs.data_ctrl & DATACTRL_DIRECTION != 0;
                let write_enabled = self.regs.data_ctrl & DATACTRL_ENABLE != 0 && self.regs.data_ctrl & DATACTRL_DIRECTION == 0;
                let transfer_len: usize = if self.regs.data_length == 0 {
                    DEFAULT_BLOCK_LEN
                } else {
                    (self.regs.data_length % 0x1_0000) as usize
                };
                let mut read_buffer: Option<Vec<u8>> = None;
                let mut write_len: Option<usize> = None;
                let is_read = cmd == CMD_READ_SINGLE_BLOCK || cmd == CMD_READ_MULTIPLE_BLOCK;
                let is_write = cmd == CMD_WRITE_BLOCK || cmd == CMD_WRITE_MULTIPLE_BLOCK;
                match &mut self.bus {
                    Some(bus) => {
                        if read_enabled && is_read && bus.data_ready() {
                            let mut data: Vec<u8> = vec![0u8; transfer_len];
                            bus.read_data(data.as_mut_slice());
                            read_buffer = Some(data);
                        } else if write_enabled && is_write && bus.receive_ready() {
                            write_len = Some(transfer_len);
                        }
                    },
                    None => {},
                }
                self.regs.response_cmd = cmd as u32;
                self.regs.response = [
                    be_word(&response, 0),
                    be_word(&response, 4),
                    be_word(&response, 8),
                    be_word(&response, 12),
                ];
                let s0 = self.regs.status;
                let base = s0 & !STATUS_COMMAND_TIMEOUT;
                let mut st = if command & COMMAND_RESPONSE != 0 && n > 0 {
                    base | STATUS_COMMAND_RESPONSE_END
                } else {
                    base | STATUS_COMMAND_SENT
                };
                match read_buffer {
                    Some(data) => {
                        self.regs.data_count = data.len() as u32;
                        self.regs.data_buffer = data;
                        self.regs.data_offset = 0;
                        st = (st | STATUS_RX_DATA_AVAILABLE) & !(STATUS_RX_FIFO_EMPTY | STATUS_DATA_END | STATUS_DATA_BLOCK_END);
                    },
                    None => {},
                }
                match write_len {
                    Some(len) => {
                        self.regs.data_buffer = Vec::new();
                        self.regs.data_offset = 0;
                        self.regs.data_count = len as u32;
                        self.regs.write_transfer_active = true;
                        self.regs.write_transfer_len = len;
                        st = st & !(STATUS_DATA_END | STATUS_DATA_BLOCK_END);
                    },
                    None => {},
                }
                self.regs.status = st;
            },
            Err(_) => {
                self.regs.status = self.regs.status | STATUS_COMMAND_TIMEOUT;
            },
        }
        self.irq_levels()
    }

    /// What a FIFO write of `size` bytes of `value` does, from `pre` to
    /// `post` with result `r`: outside a write transfer nothing; within
    /// one the bytes join the transfer, and a completed transfer goes to
    /// the card. Data-end is flagged when a card took the data, and the
    /// interrupt levels are refreshed otherwise.
    pub open spec fn fifo_written(pre: Self, post: Self, size: u32, value: u32, r: Option<(bool, bool)>) -> bool {
        let s = pre.regs;
        let total = s.write_transfer_len as int;
        let buf = fifo_appended(s.data_buffer@, size, value, total);
        let has_card = (pre.bus matches Some(b) && b.card is Some);
        let ends = STATUS_DATA_END | STATUS_DATA_BLOCK_END;
        &&& !s.write_transfer_active ==> post.regs == s && post.bus == pre.bus && r is None
        &&& s.write_transfer_active && buf.len() < total ==> {
            &&& post.regs == Pl181Regs { data_buffer: post.regs.data_buffer, data_count: (total - buf.len()) as u32, ..s }
            &&& post.regs.data_buffer@ == buf
            &&& post.bus == pre.bus
            &&& r == Some(post.irq_spec())
        }
        &&& s.write_transfer_active && buf.len() >= total ==> {
            &&& post.regs == Pl181Regs {
                data_buffer: post.regs.data_buffer,
                data_count: 0,
                data_offset: 0,
                write_transfer_active: false,
                write_transfer_len: 0,
                status: post.regs.status,
                ..s
            }
            &&& post.regs.data_buffer@.len() == 0
            &&& has_card ==> {
                &&& post.regs.status == s.status | STATUS_DATA_END | STATUS_DATA_BLOCK_END
                &&& r is None
                &&& post.bus is Some
                &&& post.bus->0.host == pre.bus->0.host
                &&& post.bus->0.card is Some
                &&& bytes_written(pre.bus->0.card->0, buf, post.bus->0.card->0)
            }
            &&& !has_card ==> {
                &&& post.regs.status == (s.status | STATUS_DATA_END | STATUS_DATA_BLOCK_END) & !ends
                &&& post.bus == pre.bus
                &&& r == Some(post.irq_spec())
            }
        }
    }

    /// Accept `size` bytes of `value` into an active write transfer; when
    /// the transfer is complete, hand the block to the card. Gives the
    /// interrupt levels when they were refreshed.
    fn write_fifo(&mut self, size: u32, value: u32) -> (r: Option<(bool, bool)>)
        requires
            old(self).wf(),
        ensures
            final(self).wf(),
            final(self).bus is Some <==> old(self).bus is Some,
            final(self).regs.mask0 == old(self).regs.mask0 && final(self).regs.mask1 == old(self).regs.mask1,
            Self::fifo_written(*old(self), *final(self), size, value, r),
    {
        if !self.regs.write_transfer_active {
            return None;
        }
        let len: usize = if size < 4 {
            size as usize
        } else {
            4
        };
        let have = self.regs.data_buffer.len();
        let total = self.regs.write_transfer_len;
        let remaining = if total > have {
            total - have
        } else {
            0
        };
        let n = if len < remaining {
            len
        } else {
            remaining
        };
        let mut k: usize = 0;
        while k < n
            invariant
                k <= n <= 4,
                have + n <= 0x1_0000,
                self.regs.data_buffer@.len() == have + k,
                self.regs.data_offset <= have,
                self.regs.write_transfer_len == total,
                total <= 0x1_0000,
                self.regs.write_transfer_active,
                self.regs.mask0 == old(self).regs.mask0 && self.regs.mask1 == old(self).regs.mask1,
                self.bus == old(self).bus,
                match self.bus {
                    Some(b) => b.wf(),
                    None => true,
                },
                self.regs == (Pl181Regs { data_buffer: self.regs.data_buffer, ..old(self).regs }),
                self.regs.data_buffer@ == old(self).regs.data_buffer@ + Seq::new(
                    k as nat,
                    |j: int| fifo_byte(value, j),
                ),
            decreases n - k,
        {
            let shift = (k as u32) * 8;
            let b = ((value >> shift) % 256) as u8;
            let ghost pre = self.regs.data_buffer@;
            self.regs.data_buffer.push(b);
            proof {
                assert(shift == ((k * 8) as int) as u32);
                assert(self.regs.data_buffer@ =~= old(self).regs.data_buffer@ + Seq::new(
                    (k + 1) as nat,
                    |j: int| fifo_byte(value, j),
                ));
            }
            k = k + 1;
        }
        proof {
            assert(n == fifo_take(size, total as int, have as int));
        }
        let now = self.regs.data_buffer.len();
        self.regs.data_count = if total >= now {
            (total - now) as u32
        } else {
            0
        };
        if now >= total {
            let mut data: Vec<u8> = Vec::new();
            std::mem::swap(&mut data, &mut self.regs.data_buffer);
            self.regs.data_offset = 0;
            self.regs.write_transfer_active = false;
            self.regs.write_transfer_len = 0;
            self.regs.status = self.regs.status | STATUS_DATA_END | STATUS_DATA_BLOCK_END;
            let delivered = match &mut self.bus {
                Some(bus) => {
                    let present = bus.card.is_some();
                    bus.write_data(data.as_slice());
                    present
                },
                None => false,
            };
            if delivered {
                return None;
            }
            self.regs.status = self.regs.status & !(STATUS_DATA_END | STATUS_DATA_BLOCK_END);
        }
        Some(self.irq_levels())
    }

    /// A write of `size` bytes of `value` at `offset`; gives the
    /// interrupt levels when the write refreshed them. Accesses of 2, 4
    /// or 8 bytes that are not aligned, and aligned 8-byte accesses, are
    /// made of smaller aligned writes.
    pub fn write_reg(&mut self, offset: u64, size: u32, value: u64) -> (r: Option<(bool, bool)>)
        requires
            old(self).wf(),
            needs_split(offset, size) ==> offset + size <= u64::MAX,
        ensures
            final(self).wf(),
            final(self).bus is Some <==> old(self).bus is Some,
            ({
                let v = (value & size_mask(size)) as u32;
                let s = old(self).regs;
                let plain = !needs_split(offset, size) && size != 8;
                &&& plain && offset == REG_FIFO ==> Self::fifo_written(*old(self), *final(self), size, v, r)
                &&& plain && offset == REG_POWER ==> final(self).regs == Pl181Regs { power: v & 0xff, ..s } && r is None
                &&& plain && offset == REG_CLOCK ==> final(self).regs == Pl181Regs { clock: v & 0xff, ..s } && r is None
                &&& plain && offset == REG_ARGUMENT ==> final(self).regs == Pl181Regs { argument: v, ..s } && r is None
                &&& plain && offset == REG_DATATIMER ==> final(self).regs == Pl181Regs { data_timer: v, ..s } && r is None
                &&& plain && offset == REG_DATALENGTH ==> final(self).regs == Pl181Regs { data_length: v & 0xffff, ..s } && r is None
                &&& plain && offset == REG_DATACTRL ==> final(self).regs == Pl181Regs { data_ctrl: v & 0xff, ..s } && r is None
                &&& plain && offset == REG_CLEAR ==> final(self).regs == Pl181Regs { status: s.status & !v, ..s }
                    && r == Some(final(self).irq_spec())
                &&& plain && offset == REG_MASK0 ==> final(self).regs == Pl181Regs { mask0: v, ..s } && r == Some(final(self).irq_spec())
                &&& plain && offset == REG_MASK1 ==> final(self).regs == Pl181Regs { mask1: v, ..s } && r == Some(final(self).irq_spec())
                &&& plain && offset == REG_COMMAND && v & COMMAND_ENABLE == 0 ==> final(self).regs == Pl181Regs { command: v, ..s }
                    && r is None
                &&& plain && offset == REG_COMMAND && v & COMMAND_ENABLE != 0 ==> final(self).regs.command == v
                    && r == Some(final(self).irq_spec())
                &&& plain && !(offset == REG_POWER || offset == REG_CLOCK || offset == REG_ARGUMENT || offset == REG_COMMAND
                    || offset == REG_DATATIMER || offset == REG_DATALENGTH || offset == REG_DATACTRL || offset == REG_CLEAR
                    || offset == REG_MASK0 || offset == REG_MASK1 || offset == REG_FIFO) ==> final(self).regs == s && r is None
            }),
        decreases size,
    {
        if (size == 2 || size == 4 || size == 8) && offset % (size as u64) != 0 {
            let mut done: u32 = 0;
            let mut irq: Option<(bool, bool)> = None;
            while done < size
                invariant
                    self.wf(),
                    self.bus is Some <==> old(self).bus is Some,
                    done <= size <= 8,
                    size == 2 || size == 4 || size == 8,
                    offset % (size as u64) != 0,
                    offset + size <= u64::MAX,
                decreases size - done,
            {
                let cur = offset + done as u64;
                let chunk = aligned_chunk_size(cur, size - done);
                proof {
                    if chunk == size {
                        assert(done == 0);
                        assert(cur == offset);
                    }
                }
                let piece = (value >> ((done * 8) as u64)) & mask_for_size(chunk);
                let i = self.write_reg(cur, chunk, piece);
                if i.is_some() {
                    irq = i;
                }
                done = done + chunk;
            }
            return irq;
        }
        if size == 8 {
            assert(offset % 4 == 0 && offset <= u64::MAX - 7 && (offset + 4) % 4 == 0) by {
                assert(offset % 8 == 0);
            }
            let i1 = self.write_reg(offset, 4, value);
            let i2 = self.write_reg(offset.wrapping_add(4), 4, value >> 32u64);
            return if i2.is_some() {
                i2
            } else {
                i1
            };
        }
        let v = (value & mask_for_size(size)) as u32;
        if offset == REG_FIFO {
            return self.write_fifo(size, v);
        }
        if offset == REG_POWER {
            self.regs.power = v & 0xff;
        } else if offset == REG_CLOCK {
            self.regs.clock = v & 0xff;
        } else if offset == REG_ARGUMENT {
            self.regs.argument = v;
        } else if offset == REG_COMMAND {
            self.regs.command = v;
            if v & COMMAND_ENABLE != 0 {
                let a = self.regs.argument;
                return Some(self.dispatch_command(v, a));
            }
        } else if offset == REG_DATATIMER {
            self.regs.data_timer = v;
        } else if offset == REG_DATALENGTH {
            self.regs.data_length = v & 0xffff;
        } else if offset == REG_DATACTRL {
            self.regs.data_ctrl = v & 0xff;
        } else if offset == REG_CLEAR {
            self.regs.status = self.regs.status & !v;
            return Some(self.irq_levels());
        } else if offset == REG_MASK0 {
            self.regs.mask0 = v;
            return Some(self.irq_levels());
        } else if offset == REG_MASK1 {
            self.regs.mask1 = v;
            return Some(self.irq_levels());
        }
        None
    }

    fn read_fifo(&mut self, size: u32) -> (r: (u64, Option<(bool, bool)>))
        requires
            old(self).wf(),
        ensures
            final(self).wf(),
            final(self).bus == old(self).bus,
            ({
                let s = old(self).regs;
                let n = if size <= 8 { size as int } else { 8 };
                let take = if s.data_buffer@.len() - s.data_offset < n { s.data_buffer@.len() - s.data_offset } else { n };
                let bytes = s.data_buffer@.subrange(s.data_offset as int, s.data_offset + take);
                let drained = s.data_offset + take >= s.data_buffer@.len() && s.data_buffer@.len() > 0;
                &&& r.0 == crate::pflash::bytes_value(bytes, false) as u64 & size_mask(size)
                &&& drained ==> final(self).regs.data_buffer@.len() == 0 && final(self).regs.data_offset == 0
                    && final(self).regs.status == (s.status & !STATUS_RX_DATA_AVAILABLE) | (STATUS_RX_FIFO_EMPTY | STATUS_DATA_END | STATUS_DATA_BLOCK_END)
                    && final(self).regs.data_count == 0 && r.1 == Some(final(self).irq_spec())
                &&& !drained ==> final(self).regs.data_offset == s.data_offset + take && final(self).regs.data_buffer
                    == s.data_buffer && final(self).regs.status == s.status && r.1 is None
                    && final(self).regs.data_count == (s.data_buffer@.len() - (s.data_offset + take)) as u32
                &&& final(self).regs.mask0 == s.mask0 && final(self).regs.mask1 == s.mask1
            }),
    {
        let n: usize = if size <= 8 {
            size as usize
        } else {
            8
        };
        let start = self.regs.data_offset;
        let avail = self.regs.data_buffer.len() - start;
        let take = if avail < n {
            avail
        } else {
            n
        };
        let mut bytes: Vec<u8> = Vec::new();
        let mut i: usize = 0;
        while i < take
            invariant
                i <= take <= 8,
                start + take <= self.regs.data_buffer@.len() <= 0x1_0000,
                bytes@ == self.regs.data_buffer@.subrange(start as int, start + i),
            decreases take - i,
        {
            bytes.push(self.regs.data_buffer[start + i]);
            i = i + 1;
            proof {
                assert(bytes@ =~= self.regs.data_buffer@.subrange(start as int, start + i));
            }
        }
        self.regs.data_offset = start + take;
        self.regs.data_count = (self.regs.data_buffer.len() - self.regs.data_offset) as u32;
        let drained = self.regs.data_offset >= self.regs.data_buffer.len() && self.regs.data_buffer.len() > 0;
        let value = crate::pflash::bytes_to_value(bytes.as_slice(), false) & mask_for_size(size);
        if drained {
            self.regs.data_buffer = Vec::new();
            self.regs.data_offset = 0;
            self.regs.data_count = 0;
            self.regs.status = (self.regs.status & !STATUS_RX_DATA_AVAILABLE) | (STATUS_RX_FIFO_EMPTY
                | STATUS_DATA_END | STATUS_DATA_BLOCK_END);
            return (value, Some(self.irq_levels()));
        }
        (value, None)
    }
}

} // verus!
