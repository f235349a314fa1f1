//! The SPI devices of the library under one type, so that one bus can
//! carry a flash and an SD card together.
use vstd::prelude::*;
use crate::m25p80::{M25p80, M25p80State};
use crate::sd::SdBusHost;
use crate::spi::{SpiCsPolarity, SpiDevState, SpiSlave};
use crate::ssi_sd::{SsiSd, SsiSdState};
use crate::storage::BlockBackend;

verus! {

/// An SPI device: an M25P80 flash or an SD card behind an SPI bridge.
pub enum SpiDevice<F: BlockBackend, S: BlockBackend, H: SdBusHost> {
    Flash(M25p80<F>),
    Sd(SsiSd<S, H>),
}

/// The state of an [`SpiDevice`].
pub enum SpiDeviceState {
    Flash(M25p80State),
    Sd(SsiSdState),
}

impl SpiDevState for SpiDeviceState {
    open spec fn reply(&self, val: u32) -> u32 {
        match self {
            SpiDeviceState::Flash(s) => s.reply(val),
            SpiDeviceState::Sd(s) => s.reply(val),
        }
    }

    open spec fn after_transfer(&self, val: u32) -> Self {
        match self {
            SpiDeviceState::Flash(s) => SpiDeviceState::Flash(s.after_transfer(val)),
            SpiDeviceState::Sd(s) => SpiDeviceState::Sd(s.after_transfer(val)),
        }
    }

    open spec fn after_cs(&self, cs: bool) -> Self {
        match self {
            SpiDeviceState::Flash(s) => SpiDeviceState::Flash(s.after_cs(cs)),
            SpiDeviceState::Sd(s) => SpiDeviceState::Sd(s.after_cs(cs)),
        }
    }

    open spec fn polarity(&self) -> SpiCsPolarity {
        match self {
            SpiDeviceState::Flash(s) => s.polarity(),
            SpiDeviceState::Sd(s) => s.polarity(),
        }
    }

    open spec fn index(&self) -> u8 {
        match self {
            SpiDeviceState::Flash(s) => s.index(),
            SpiDeviceState::Sd(s) => s.index(),
        }
    }
}

impl<F: BlockBackend, S: BlockBackend, H: SdBusHost> SpiSlave for SpiDevice<F, S, H> {
    type State = SpiDeviceState;

    open spec fn state(&self) -> SpiDeviceState {
        match self {
            SpiDevice::Flash(d) => SpiDeviceState::Flash(d.state()),
            SpiDevice::Sd(d) => SpiDeviceState::Sd(d.state()),
        }
    }

    fn transfer(&mut self, val: u32) -> (r: u32) {
        match self {
            SpiDevice::Flash(d) => d.transfer(val),
            SpiDevice::Sd(d) => d.transfer(val),
        }
    }

    fn set_cs(&mut self, cs: bool) {
        match self {
            SpiDevice::Flash(d) => d.set_cs(cs),
            SpiDevice::Sd(d) => d.set_cs(cs),
        }
    }

    fn cs_polarity(&self) -> (r: SpiCsPolarity) {
        match self {
            SpiDevice::Flash(d) => d.cs_polarity(),
            SpiDevice::Sd(d) => d.cs_polarity(),
        }
    }

    fn cs_index(&self) -> (r: u8) {
        match self {
            SpiDevice::Flash(d) => d.cs_index(),
            SpiDevice::Sd(d) => d.cs_index(),
        }
    }
}

} // verus!
