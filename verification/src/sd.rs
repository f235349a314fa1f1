//! SD/MMC bus: the host-to-card command / response / data protocol used
//! by SDHCI controllers, SPI-SD bridges and the PL181.
//!
//! A bus holds at most one card and notifies its host controller when a
//! card comes or goes.
use vstd::prelude::*;

pub mod card;
pub mod status;

verus! {

/// Errors returned by SD bus operations.
#[derive(Debug, Clone, Copy, PartialEq, Eq, Structural)]
pub enum SdError {
    /// No card is inserted in the bus.
    NoCard,
    /// Command timed out (no response from card).
    Timeout,
}

impl SdError {
    /// The text of the description.
    pub open spec fn message_text(&self) -> Seq<char> {
        match self {
            SdError::NoCard => "SD no card"@,
            SdError::Timeout => "SD command timeout"@,
        }
    }

    /// Human-readable description of the error.
    pub fn message(&self) -> (r: &'static str)
        ensures
            r@ == self.message_text(),
    {
        match self {
            SdError::NoCard => "SD no card",
            SdError::Timeout => "SD command timeout",
        }
    }
}

/// SD command request from host to card.
#[derive(Debug, Clone, Copy, PartialEq, Eq, Structural)]
pub struct SdRequest {
    /// Command index (0-63).
    pub cmd: u8,
    /// Command argument.
    pub arg: u32,
    /// CRC7 for the command.
    pub crc: u8,
}

impl SdRequest {
    /// A request for command `cmd` with argument `arg` and no CRC.
    pub fn new(cmd: u8, arg: u32) -> (r: Self)
        ensures
            r == (SdRequest { cmd, arg, crc: 0 }),
    {
        SdRequest { cmd, arg, crc: 0 }
    }
}

/// SD supply voltage levels.
#[derive(Debug, Clone, Copy, PartialEq, Eq, Structural)]
pub enum SdVoltage {
    /// 3.3V
    V33,
    /// 3.0V
    V30,
    /// 1.8V
    V18,
}

impl SdVoltage {
    /// The level in millivolts.
    pub fn millivolts(&self) -> (r: u16)
        ensures
            r == (match *self {
                SdVoltage::V33 => 3300u16,
                SdVoltage::V30 => 3000u16,
                SdVoltage::V18 => 1800u16,
            }),
    {
        match self {
            SdVoltage::V33 => 3300,
            SdVoltage::V30 => 3000,
            SdVoltage::V18 => 1800,
        }
    }
}

/// An SD/MMC card attached to the bus.
pub trait SdCard: Sized {
    /// The card's internal consistency, kept by every operation.
    spec fn inv(&self) -> bool;

    /// Process an SD command and return the number of response bytes
    /// written to `resp` (at least 16 bytes long for long responses).
    fn do_command(&mut self, req: &SdRequest, resp: &mut [u8]) -> (r: usize)
        requires
            old(self).inv(),
        ensures
            final(self).inv(),
            final(resp)@.len() == old(resp)@.len(),
            r <= old(resp)@.len(),
            old(self).command_done(*req, old(resp)@, final(resp)@, r as int, *final(self)),
    ;

    /// The card, in this state, answers `req` by turning the response
    /// buffer `resp_in` into `resp_out` with `n` response bytes, and ends
    /// in state `after`.
    spec fn command_done(&self, req: SdRequest, resp_in: Seq<u8>, resp_out: Seq<u8>, n: int, after: Self) -> bool;

    /// The card, in this state, takes data byte `value` and ends in state
    /// `after`.
    spec fn byte_written(&self, value: u8, after: Self) -> bool;

    /// The card, in this state, delivers data byte `value` and ends in
    /// state `after`.
    spec fn byte_read(&self, value: u8, after: Self) -> bool;

    /// Write a byte to the card (data phase).
    fn write_byte(&mut self, value: u8)
        requires
            old(self).inv(),
        ensures
            final(self).inv(),
            old(self).byte_written(value, *final(self)),
    ;

    /// Read a byte from the card (data phase).
    fn read_byte(&mut self) -> (r: u8)
        requires
            old(self).inv(),
        ensures
            final(self).inv(),
            old(self).byte_read(r, *final(self)),
    ;

    /// Whether the card, in this state, can take data.
    spec fn can_receive(&self) -> bool;

    /// Whether the card, in this state, has data to deliver.
    spec fn has_data(&self) -> bool;

    /// Whether the card is inserted.
    spec fn inserted(&self) -> bool;

    /// Whether the card is write-protected.
    spec fn write_protected(&self) -> bool;

    /// The card's DAT line mask in this state.
    spec fn dat_lines(&self) -> u8;

    /// The card's CMD line in this state.
    spec fn cmd_line(&self) -> bool;

    /// The card, in this state, is supplied `millivolts` and ends in state
    /// `after`.
    spec fn voltage_set(&self, millivolts: u16, after: Self) -> bool;

    /// Whether the card is ready to receive data.
    fn receive_ready(&self) -> (r: bool)
        requires
            self.inv(),
        ensures
            r == self.can_receive(),
    ;

    /// Whether the card has data ready to read.
    fn data_ready(&self) -> (r: bool)
        requires
            self.inv(),
        ensures
            r == self.has_data(),
    ;

    /// Whether a card is inserted.
    fn get_inserted(&self) -> (r: bool)
        requires
            self.inv(),
        ensures
            r == self.inserted(),
    ;

    /// Whether the card is write-protected.
    fn get_readonly(&self) -> (r: bool)
        requires
            self.inv(),
        ensures
            r == self.write_protected(),
    ;

    /// Set the supply voltage (in millivolts).
    fn set_voltage(&mut self, millivolts: u16)
        requires
            old(self).inv(),
        ensures
            final(self).inv(),
            old(self).voltage_set(millivolts, *final(self)),
    ;

    /// The DAT line mask (0b1111 = 4-bit bus).
    fn get_dat_lines(&self) -> (r: u8)
        requires
            self.inv(),
        ensures
            r == self.dat_lines(),
    ;

    /// The CMD line state.
    fn get_cmd_line(&self) -> (r: bool)
        requires
            self.inv(),
        ensures
            r == self.cmd_line(),
    ;
}

/// `states` are the card's states while it takes the bytes of `data`
/// one after the other: each byte leads from one state to the next, and
/// each state is consistent.
pub open spec fn write_chain<C: SdCard>(states: Seq<C>, data: Seq<u8>) -> bool {
    &&& states.len() == data.len() + 1
    &&& forall|i: int|
        0 <= i < data.len() ==> #[trigger] states[i].byte_written(data[i], states[i + 1])
    &&& forall|i: int| 0 <= i < states.len() ==> #[trigger] states[i].inv()
}

/// `states` are the card's states while it delivers the bytes of `data`
/// one after the other.
pub open spec fn read_chain<C: SdCard>(states: Seq<C>, data: Seq<u8>) -> bool {
    &&& states.len() == data.len() + 1
    &&& forall|i: int| 0 <= i < data.len() ==> #[trigger] states[i].byte_read(data[i], states[i + 1])
    &&& forall|i: int| 0 <= i < states.len() ==> #[trigger] states[i].inv()
}

/// The card goes from `before` to `after` by taking the bytes of `data`
/// one after the other.
pub open spec fn bytes_written<C: SdCard>(before: C, data: Seq<u8>, after: C) -> bool {
    exists|states: Seq<C>|
        #[trigger] write_chain(states, data) && states[0] == before && states.last() == after
}

/// The card goes from `before` to `after` by delivering the bytes of
/// `data` one after the other.
pub open spec fn bytes_read<C: SdCard>(before: C, data: Seq<u8>, after: C) -> bool {
    exists|states: Seq<C>|
        #[trigger] read_chain(states, data) && states[0] == before && states.last() == after
}

/// Event callbacks from the bus to the host controller.
pub trait SdBusHost {
    /// Called when card insertion state changes.
    fn set_inserted(&mut self, inserted: bool);

    /// Called when write-protect state changes.
    fn set_readonly(&mut self, readonly: bool);
}

/// An SD/MMC bus connecting a host controller to a card. Only one card
/// may be attached at a time.
pub struct SdBus<C: SdCard, H: SdBusHost> {
    pub card: Option<C>,
    pub host: Option<H>,
}

impl<C: SdCard, H: SdBusHost> SdBus<C, H> {
    /// The attached card, if any, is consistent.
    pub open spec fn wf(&self) -> bool {
        self.card matches Some(c) ==> c.inv()
    }

    /// An empty bus with no host.
    pub fn new() -> (r: Self)
        ensures
            r.card is None,
            r.host is None,
            r.wf(),
    {
        SdBus { card: None, host: None }
    }

    /// Attach the host controller callbacks.
    pub fn set_host(&mut self, host: H)
        ensures
            final(self).card == old(self).card,
            final(self).host == Some(host),
    {
        self.host = Some(host);
    }

    /// Insert `card`, replacing any previous one, and tell the host a
    /// card is present.
    pub fn insert_card(&mut self, card: C)
        requires
            card.inv(),
        ensures
            final(self).card == Some(card),
            final(self).host is Some <==> old(self).host is Some,
            final(self).wf(),
    {
        self.card = Some(card);
        match &mut self.host {
            Some(h) => h.set_inserted(true),
            None => {},
        }
    }

    /// Remove the card and tell the host no card is present.
    pub fn remove_card(&mut self)
        ensures
            final(self).card is None,
            final(self).host is Some <==> old(self).host is Some,
            final(self).wf(),
    {
        self.card = None;
        match &mut self.host {
            Some(h) => h.set_inserted(false),
            None => {},
        }
    }

    /// Send a command to the card: the number of response bytes, or
    /// `NoCard` when the bus is empty.
    pub fn do_command(&mut self, req: &SdRequest, resp: &mut [u8]) -> (r: Result<usize, SdError>)
        requires
            old(self).wf(),
        ensures
            final(self).wf(),
            final(self).card is Some <==> old(self).card is Some,
            final(self).host == old(self).host,
            final(resp)@.len() == old(resp)@.len(),
            old(self).card is None ==> r == Err::<usize, SdError>(SdError::NoCard) && final(resp)@
                == old(resp)@,
            old(self).card is Some ==> (r matches Ok(n) && n <= old(resp)@.len()),
            old(self).card matches Some(c0) ==> (r matches Ok(n) && final(self).card matches Some(c1)
                && c0.command_done(*req, old(resp)@, final(resp)@, n as int, c1)),
    {
        match &mut self.card {
            Some(c) => Ok(c.do_command(req, resp)),
            None => Err(SdError::NoCard),
        }
    }

    /// Write a byte to the card, if any.
    pub fn write_byte(&mut self, value: u8)
        requires
            old(self).wf(),
        ensures
            final(self).wf(),
            final(self).card is Some <==> old(self).card is Some,
            final(self).host == old(self).host,
            old(self).card is None ==> final(self).card is None,
            old(self).card matches Some(c0) ==> (final(self).card matches Some(c1) && c0.byte_written(
                value,
                c1,
            )),
    {
        match &mut self.card {
            Some(c) => c.write_byte(value),
            None => {},
        }
    }

    /// Read a byte from the card; 0 with no card.
    pub fn read_byte(&mut self) -> (r: u8)
        requires
            old(self).wf(),
        ensures
            final(self).wf(),
            final(self).card is Some <==> old(self).card is Some,
            final(self).host == old(self).host,
            old(self).card is None ==> r == 0,
            old(self).card matches Some(c0) ==> (final(self).card matches Some(c1) && c0.byte_read(
                r,
                c1,
            )),
    {
        match &mut self.card {
            Some(c) => c.read_byte(),
            None => 0,
        }
    }

    /// Write every byte of `buf` to the card, in order.
    pub fn write_data(&mut self, buf: &[u8])
        requires
            old(self).wf(),
        ensures
            final(self).wf(),
            final(self).card is Some <==> old(self).card is Some,
            final(self).host == old(self).host,
            old(self).card matches Some(c0) ==> (final(self).card matches Some(c1) && bytes_written(
                c0,
                buf@,
                c1,
            )),
    {
        let ghost mut states: Seq<C> = seq![old(self).card->0];
        let mut i: usize = 0;
        while i < buf.len()
            invariant
                i <= buf.len(),
                self.wf(),
                self.card is Some <==> old(self).card is Some,
                self.host == old(self).host,
                old(self).card is Some ==> {
                    &&& write_chain(states, buf@.take(i as int))
                    &&& states[0] == old(self).card->0
                    &&& states.last() == self.card->0
                },
            decreases buf.len() - i,
        {
            let ghost prev = states;
            self.write_byte(buf[i]);
            proof {
                if old(self).card is Some {
                    states = prev.push(self.card->0);
                    let data = buf@.take(i + 1);
                    assert forall|j: int| 0 <= j < data.len() implies #[trigger] states[j].byte_written(
                        data[j],
                        states[j + 1],
                    ) by {
                        if j < i {
                            assert(data[j] == buf@.take(i as int)[j]);
                        }
                    }
                }
            }
            i = i + 1;
        }
        proof {
            assert(buf@.take(i as int) =~= buf@);
        }
    }

    /// Fill `buf` with bytes read from the card; left as it is with no
    /// card.
    pub fn read_data(&mut self, buf: &mut [u8])
        requires
            old(self).wf(),
        ensures
            final(self).wf(),
            final(self).card is Some <==> old(self).card is Some,
            final(self).host == old(self).host,
            final(buf)@.len() == old(buf)@.len(),
            old(self).card is None ==> final(buf)@ == old(buf)@,
            old(self).card matches Some(c0) ==> (final(self).card matches Some(c1) && bytes_read(
                c0,
                final(buf)@,
                c1,
            )),
    {
        if self.card.is_none() {
            return;
        }
        let ghost mut states: Seq<C> = seq![old(self).card->0];
        let mut i: usize = 0;
        while i < buf.len()
            invariant
                i <= buf.len(),
                self.wf(),
                self.card is Some,
                old(self).card is Some,
                self.host == old(self).host,
                buf@.len() == old(buf)@.len(),
                read_chain(states, buf@.take(i as int)),
                states[0] == old(self).card->0,
                states.last() == self.card->0,
            decreases buf.len() - i,
        {
            let ghost prev = states;
            let ghost before = buf@;
            let b = self.read_byte();
            buf[i] = b;
            proof {
                states = prev.push(self.card->0);
                let data = buf@.take(i + 1);
                assert forall|j: int| 0 <= j < data.len() implies #[trigger] states[j].byte_read(
                    data[j],
                    states[j + 1],
                ) by {
                    if j < i {
                        assert(data[j] == before.take(i as int)[j]);
                    }
                }
            }
            i = i + 1;
        }
        proof {
            assert(buf@.take(i as int) =~= buf@);
        }
    }

    /// Whether the card is ready to receive data; false with no card.
    pub fn receive_ready(&self) -> (r: bool)
        requires
            self.wf(),
        ensures
            r == (self.card matches Some(c) && c.can_receive()),
    {
        match &self.card {
            Some(c) => c.receive_ready(),
            None => false,
        }
    }

    /// Whether the card has data ready; false with no card.
    pub fn data_ready(&self) -> (r: bool)
        requires
            self.wf(),
        ensures
            r == (self.card matches Some(c) && c.has_data()),
    {
        match &self.card {
            Some(c) => c.data_ready(),
            None => false,
        }
    }

    /// Whether a card is present and reports itself inserted.
    pub fn get_inserted(&self) -> (r: bool)
        requires
            self.wf(),
        ensures
            r == (self.card matches Some(c) && c.inserted()),
    {
        match &self.card {
            Some(c) => c.get_inserted(),
            None => false,
        }
    }

    /// Whether the card is read-only; false with no card.
    pub fn get_readonly(&self) -> (r: bool)
        requires
            self.wf(),
        ensures
            r == (self.card matches Some(c) && c.write_protected()),
    {
        match &self.card {
            Some(c) => c.get_readonly(),
            None => false,
        }
    }

    /// Set the voltage supplied to the card, if any.
    pub fn set_voltage(&mut self, millivolts: u16)
        requires
            old(self).wf(),
        ensures
            final(self).wf(),
            final(self).card is Some <==> old(self).card is Some,
            final(self).host == old(self).host,
            old(self).card matches Some(c0) ==> (final(self).card matches Some(c1) && c0.voltage_set(
                millivolts,
                c1,
            )),
    {
        match &mut self.card {
            Some(c) => c.set_voltage(millivolts),
            None => {},
        }
    }

    /// The card's DAT line mask; all four lines with no card.
    pub fn get_dat_lines(&self) -> (r: u8)
        requires
            self.wf(),
        ensures
            self.card is None ==> r == 0b1111,
            self.card matches Some(c) ==> r == c.dat_lines(),
    {
        match &self.card {
            Some(c) => c.get_dat_lines(),
            None => 0b1111,
        }
    }

    /// The CMD line state; high with no card.
    pub fn get_cmd_line(&self) -> (r: bool)
        requires
            self.wf(),
        ensures
            self.card is None ==> r,
            self.card matches Some(c) ==> r == c.cmd_line(),
    {
        match &self.card {
            Some(c) => c.get_cmd_line(),
            None => true,
        }
    }

    /// Remove and return the card, telling the host when there was one.
    pub fn take_card(&mut self) -> (r: Option<C>)
        requires
            old(self).wf(),
        ensures
            r == old(self).card,
            final(self).card is None,
            final(self).host is Some <==> old(self).host is Some,
            final(self).wf(),
            r matches Some(c) ==> c.inv(),
    {
        let card = self.card.take();
        if card.is_some() {
            match &mut self.host {
                Some(h) => h.set_inserted(false),
                None => {},
            }
        }
        card
    }

    /// Move the card of `from` onto this bus; the host learns that a
    /// card is present and whether it is read-only. Nothing happens when
    /// `from` is empty.
    pub fn reparent_card<H2: SdBusHost>(&mut self, from: &mut SdBus<C, H2>)
        requires
            old(self).wf(),
            old(from).wf(),
        ensures
            final(self).wf(),
            final(from).wf(),
            final(from).card is None,
            old(from).card is Some ==> final(self).card == old(from).card,
            old(from).card is None ==> final(self).card == old(self).card,
            final(self).host is Some <==> old(self).host is Some,
            final(from).host is Some <==> old(from).host is Some,
    {
        let readonly = from.get_readonly();
        match from.take_card() {
            Some(card) => {
                self.card = Some(card);
                match &mut self.host {
                    Some(h) => {
                        h.set_inserted(true);
                        h.set_readonly(readonly);
                    },
                    None => {},
                }
            },
            None => {},
        }
    }
}

} // verus!
