//! I2C temperature sensors: the TI TMP105 (with thermostat alert) and
//! the TMP421/422/423 family.
use vstd::prelude::*;
use crate::ds1338::{tdiv, I2cEvent};

verus! {

pub const TMP105_REG_TEMPERATURE: u8 = 0;
pub const TMP105_REG_CONFIG: u8 = 1;
pub const TMP105_REG_T_LOW: u8 = 2;
pub const TMP105_REG_T_HIGH: u8 = 3;
pub const CONFIG_SHUTDOWN_MODE: u8 = 0x01;
pub const CONFIG_THERMOSTAT_MODE: u8 = 0x02;
pub const CONFIG_POLARITY: u8 = 0x04;
pub const CONFIG_ONE_SHOT: u8 = 0x80;

/// Why a temperature cannot be set.
#[derive(Debug, Clone, Copy, PartialEq, Eq, Structural)]
pub enum Tmp105Error {
    TemperatureOutOfRange,
}

impl Tmp105Error {
    /// Human-readable description of the error.
    pub fn message(&self) -> (r: &'static str)
        ensures
            r@ == "temperature is out of range"@,
    {
        "temperature is out of range"
    }
}

/// The TMP105 registers and I2C transfer state.
#[derive(Clone, Copy)]
pub struct Tmp105 {
    pub address: u8,
    /// Bytes transferred in the current I2C transaction.
    pub len: u8,
    pub buf0: u8,
    pub buf1: u8,
    pub pointer: u8,
    pub config: u8,
    /// Temperature in 1/256 degree Celsius.
    pub temperature: i16,
    pub limit_low: i16,
    pub limit_high: i16,
    /// Consecutive faults needed to trip the alert.
    pub faults: u8,
    pub alarm: bool,
    pub detect_falling: bool,
}

/// The fault-queue length selected by the two configuration bits.
pub open spec fn fault_queue(index: u8) -> u8 {
    if index == 0 {
        1
    } else if index == 1 {
        2
    } else if index == 2 {
        4
    } else {
        6
    }
}

/// The alarm state after a conversion (or, in shutdown mode, only a
/// one-shot conversion). In comparator mode the alarm follows the
/// temperature with hysteresis; in thermostat (interrupt) mode it is
/// set on each crossing and cleared by a read.
pub open spec fn tmp105_alarm(s: Tmp105, one_shot: bool) -> Tmp105 {
    if s.config & CONFIG_SHUTDOWN_MODE != 0 && !one_shot {
        s
    } else if s.detect_falling {
        if s.temperature < s.limit_low {
            Tmp105 {
                alarm: s.config & CONFIG_THERMOSTAT_MODE != 0,
                detect_falling: false,
                ..s
            }
        } else {
            s
        }
    } else if s.temperature >= s.limit_high {
        Tmp105 { alarm: true, detect_falling: true, ..s }
    } else {
        s
    }
}

/// The level of the alert line (active low unless POLARITY is set).
pub open spec fn tmp105_alert(s: Tmp105) -> bool {
    s.alarm != (s.config & CONFIG_POLARITY == 0)
}

/// The state after loading the read buffer from the register the
/// pointer selects.
pub open spec fn tmp105_load(s: Tmp105) -> Tmp105 {
    let t = if s.config & CONFIG_THERMOSTAT_MODE != 0 { Tmp105 { alarm: false, ..s } } else { s };
    let reg = s.pointer & 3;
    if reg == TMP105_REG_TEMPERATURE {
        let temp = s.temperature as u16;
        let resolution = ((!s.config) >> 5u8) & 3;
        let mask = (0x00f0u16 << resolution) as u8;
        Tmp105 { buf0: (temp >> 8u16) as u8, buf1: (temp as u8) & mask, len: 2, ..t }
    } else if reg == TMP105_REG_CONFIG {
        Tmp105 { buf0: s.config, len: 1, ..t }
    } else if reg == TMP105_REG_T_LOW {
        let l = s.limit_low as u16;
        Tmp105 { buf0: (l >> 8u16) as u8, buf1: l as u8, len: 2, ..t }
    } else {
        let l = s.limit_high as u16;
        Tmp105 { buf0: (l >> 8u16) as u8, buf1: l as u8, len: 2, ..t }
    }
}

/// The state after storing the write buffer into the register the
/// pointer selects.
pub open spec fn tmp105_store(s: Tmp105) -> Tmp105 {
    let reg = s.pointer & 3;
    if reg == TMP105_REG_CONFIG {
        let config = s.buf0 & !CONFIG_ONE_SHOT;
        tmp105_alarm(
            Tmp105 { config, faults: fault_queue((config >> 3u8) & 3), ..s },
            s.buf0 & CONFIG_ONE_SHOT != 0,
        )
    } else if reg == TMP105_REG_T_LOW || reg == TMP105_REG_T_HIGH {
        let limit = (((s.buf0 as u16) << 8u16) | ((s.buf1 & 0xf0) as u16)) as i16;
        let t = if s.len >= 3 {
            if s.pointer & 1 == 0 {
                Tmp105 { limit_low: limit, ..s }
            } else {
                Tmp105 { limit_high: limit, ..s }
            }
        } else {
            s
        };
        tmp105_alarm(t, false)
    } else {
        s
    }
}

/// The state after an I2C bus event.
pub open spec fn tmp105_after_event(s: Tmp105, event: I2cEvent) -> Tmp105 {
    let t = if event == I2cEvent::StartRecv { tmp105_load(s) } else { s };
    Tmp105 { len: 0, ..t }
}

impl Tmp105 {
    /// A sensor at I2C address `address`: 0 degrees, limits 75 and 80
    /// degrees, comparator mode.
    pub fn new(address: u8) -> (r: Self)
        ensures
            r == (Tmp105 {
                address,
                len: 0,
                buf0: 0,
                buf1: 0,
                pointer: 0,
                config: 0,
                temperature: 0,
                limit_low: 0x4b00,
                limit_high: 0x5000,
                faults: 1,
                alarm: false,
                detect_falling: false,
            }),
    {
        Tmp105 {
            address,
            len: 0,
            buf0: 0,
            buf1: 0,
            pointer: 0,
            config: 0,
            temperature: 0,
            limit_low: 0x4b00,
            limit_high: 0x5000,
            faults: 1,
            alarm: false,
            detect_falling: false,
        }
    }

    /// The I2C address.
    pub fn address(&self) -> (r: u8)
        ensures
            r == self.address,
    {
        self.address
    }

    /// The level the alert line is driven to.
    pub fn alert_level(&self) -> (r: bool)
        ensures
            r == tmp105_alert(*self),
    {
        let active_low = self.config & CONFIG_POLARITY == 0;
        self.alarm != active_low
    }

    fn update_alarm(&mut self, one_shot: bool)
        ensures
            *final(self) == tmp105_alarm(*old(self), one_shot),
    {
        if self.config & CONFIG_SHUTDOWN_MODE != 0 && !one_shot {
            return;
        }
        if self.config & CONFIG_THERMOSTAT_MODE != 0 {
            if self.detect_falling {
                if self.temperature < self.limit_low {
                    self.alarm = true;
                    self.detect_falling = false;
                }
            } else if self.temperature >= self.limit_high {
                self.alarm = true;
                self.detect_falling = true;
            }
        } else if self.detect_falling {
            if self.temperature < self.limit_low {
                self.alarm = false;
                self.detect_falling = false;
            }
        } else if self.temperature >= self.limit_high {
            self.alarm = true;
            self.detect_falling = true;
        }
    }

    /// Set the measured temperature in millidegrees Celsius; it must lie
    /// in [-128000, 128000). A new conversion updates the alarm.
    pub fn set_temperature_millicelsius(&mut self, temp: i64) -> (r: Result<(), Tmp105Error>)
        ensures
            (temp < -128_000 || temp >= 128_000) ==> r == Err::<(), Tmp105Error>(
                Tmp105Error::TemperatureOutOfRange,
            ) && *final(self) == *old(self),
            (-128_000 <= temp < 128_000) ==> r is Ok && *final(self) == tmp105_alarm(
                Tmp105 { temperature: tdiv(temp * 256, 1000) as i16, ..*old(self) },
                false,
            ),
    {
        if temp < -128_000 || temp >= 128_000 {
            return Err(Tmp105Error::TemperatureOutOfRange);
        }
        let scaled = temp * 256 / 1000;
        self.temperature = scaled as i16;
        self.update_alarm(false);
        Ok(())
    }

    fn read_to_buffer(&mut self)
        ensures
            *final(self) == tmp105_load(*old(self)),
    {
        self.len = 0;
        if self.config & CONFIG_THERMOSTAT_MODE != 0 {
            self.alarm = false;
        }
        let reg = self.pointer & 3;
        proof {
            let p = self.pointer;
            assert(p & 3 <= 3) by (bit_vector);
        }
        if reg == TMP105_REG_TEMPERATURE {
            let temperature = self.temperature as u16;
            self.buf0 = (temperature >> 8u16) as u8;
            let resolution = ((!self.config) >> 5u8) & 3;
            proof {
                let c = self.config;
                assert(((!c) >> 5u8) & 3 <= 3) by (bit_vector);
            }
            let mask = (0x00f0u16 << resolution) as u8;
            self.buf1 = (temperature as u8) & mask;
            self.len = 2;
        } else if reg == TMP105_REG_CONFIG {
            self.buf0 = self.config;
            self.len = 1;
        } else if reg == TMP105_REG_T_LOW {
            let limit = self.limit_low as u16;
            self.buf0 = (limit >> 8u16) as u8;
            self.buf1 = limit as u8;
            self.len = 2;
        } else {
            let limit = self.limit_high as u16;
            self.buf0 = (limit >> 8u16) as u8;
            self.buf1 = limit as u8;
            self.len = 2;
        }
    }

    fn write_from_buffer(&mut self)
        ensures
            *final(self) == tmp105_store(*old(self)),
    {
        let reg = self.pointer & 3;
        if reg == TMP105_REG_CONFIG {
            self.config = self.buf0 & !CONFIG_ONE_SHOT;
            let fault_index = (self.config >> 3u8) & 3;
            self.faults = if fault_index == 0 {
                1
            } else if fault_index == 1 {
                2
            } else if fault_index == 2 {
                4
            } else {
                6
            };
            let one_shot = self.buf0 & CONFIG_ONE_SHOT != 0;
            self.update_alarm(one_shot);
        } else if reg == TMP105_REG_T_LOW || reg == TMP105_REG_T_HIGH {
            if self.len >= 3 {
                let limit = (((self.buf0 as u16) << 8u16) | ((self.buf1 & 0xf0) as u16)) as i16;
                if self.pointer & 1 == 0 {
                    self.limit_low = limit;
                } else {
                    self.limit_high = limit;
                }
            }
            self.update_alarm(false);
        }
    }

    /// An I2C bus event: the start of a read loads the register the
    /// pointer selects; every event restarts the byte count.
    pub fn event(&mut self, event: I2cEvent)
        ensures
            *final(self) == tmp105_after_event(*old(self), event),
    {
        if event == I2cEvent::StartRecv {
            self.read_to_buffer();
        }
        self.len = 0;
    }

    /// A byte from the bus master: the first selects the register, the
    /// next two are its value (a configuration write takes one, a limit
    /// two).
    pub fn send(&mut self, data: u8)
        requires
            old(self).len < 255,
        ensures
            old(self).len == 0 ==> *final(self) == (Tmp105 { pointer: data, len: 1, ..*old(self) }),
            old(self).len == 1 ==> *final(self) == tmp105_store(Tmp105 { buf0: data, len: 2, ..*old(self) }),
            old(self).len == 2 ==> *final(self) == tmp105_store(Tmp105 { buf1: data, len: 3, ..*old(self) }),
            old(self).len > 2 ==> *final(self) == tmp105_store(
                Tmp105 { len: (old(self).len + 1) as u8, ..*old(self) },
            ),
    {
        if self.len == 0 {
            self.pointer = data;
            self.len = 1;
            return;
        }
        if self.len == 1 {
            self.buf0 = data;
        } else if self.len == 2 {
            self.buf1 = data;
        }
        self.len = self.len + 1;
        self.write_from_buffer();
    }

    /// A byte to the bus master: the loaded register bytes, then 0xFF.
    pub fn recv(&mut self) -> (r: u8)
        ensures
            old(self).len == 0 ==> r == old(self).buf0 && *final(self) == (Tmp105 { len: 1, ..*old(self) }),
            old(self).len == 1 ==> r == old(self).buf1 && *final(self) == (Tmp105 { len: 2, ..*old(self) }),
            old(self).len >= 2 ==> r == 0xff && *final(self) == *old(self),
    {
        if self.len == 0 {
            self.len = 1;
            self.buf0
        } else if self.len == 1 {
            self.len = 2;
            self.buf1
        } else {
            0xff
        }
    }
}

pub const MANUFACTURER_ID: u8 = 0x55;
pub const TMP421_DEVICE_ID: u8 = 0x21;
pub const TMP422_DEVICE_ID: u8 = 0x22;
pub const TMP423_DEVICE_ID: u8 = 0x23;
pub const STATUS_REG: u8 = 0x08;
pub const CONFIG_REG_1: u8 = 0x09;
pub const CONFIG_REG_2: u8 = 0x0a;
pub const CONVERSION_RATE_REG: u8 = 0x0b;
pub const RESET_REG: u8 = 0xfc;
pub const MANUFACTURER_ID_REG: u8 = 0xfe;
pub const DEVICE_ID_REG: u8 = 0xff;
pub const TEMP_MSB0: u8 = 0x00;
pub const TEMP_MSB3: u8 = 0x03;
pub const TEMP_LSB0: u8 = 0x10;
pub const TEMP_LSB3: u8 = 0x13;
pub const CONFIG_RANGE: u8 = 0x04;

/// The member of the TMP42x family.
#[derive(Debug, Clone, Copy, PartialEq, Eq, Structural)]
pub enum Tmp421Model {
    Tmp421,
    Tmp422,
    Tmp423,
}

impl Tmp421Model {
    /// The device identification byte.
    pub fn device_id(self) -> (r: u8)
        ensures
            r == (match self {
                Tmp421Model::Tmp421 => TMP421_DEVICE_ID,
                Tmp421Model::Tmp422 => TMP422_DEVICE_ID,
                Tmp421Model::Tmp423 => TMP423_DEVICE_ID,
            }),
    {
        match self {
            Tmp421Model::Tmp421 => TMP421_DEVICE_ID,
            Tmp421Model::Tmp422 => TMP422_DEVICE_ID,
            Tmp421Model::Tmp423 => TMP423_DEVICE_ID,
        }
    }

    /// Configuration register 2 at reset: one enable bit per channel.
    pub fn default_config2(self) -> (r: u8)
        ensures
            r == (match self {
                Tmp421Model::Tmp421 => 0x1cu8,
                Tmp421Model::Tmp422 => 0x3cu8,
                Tmp421Model::Tmp423 => 0x7cu8,
            }),
    {
        match self {
            Tmp421Model::Tmp421 => 0x1c,
            Tmp421Model::Tmp422 => 0x3c,
            Tmp421Model::Tmp423 => 0x7c,
        }
    }
}

/// Why a temperature cannot be set.
#[derive(Debug, Clone, Copy, PartialEq, Eq, Structural)]
pub enum Tmp421Error {
    InvalidChannel,
    TemperatureOutOfRange,
}

impl Tmp421Error {
    /// The text of the description.
    pub open spec fn message_text(&self) -> Seq<char> {
        match self {
            Tmp421Error::InvalidChannel => "invalid temperature channel"@,
            Tmp421Error::TemperatureOutOfRange => "temperature is out of range"@,
        }
    }

    /// Human-readable description of the error.
    pub fn message(&self) -> (r: &'static str)
        ensures
            r@ == self.message_text(),
    {
        match self {
            Tmp421Error::InvalidChannel => "invalid temperature channel",
            Tmp421Error::TemperatureOutOfRange => "temperature is out of range",
        }
    }
}

/// A TMP42x sensor.
pub struct Tmp421 {
    pub address: u8,
    pub model: Tmp421Model,
    /// Channel temperatures (register encoding).
    pub temperature: [i16; 4],
    pub status: u8,
    pub config1: u8,
    pub config2: u8,
    pub rate: u8,
    pub len: u8,
    pub buf0: u8,
    pub buf1: u8,
    pub pointer: u8,
}

/// The register state at reset of `model` at `address`.
pub open spec fn tmp421_reset(s: Tmp421) -> bool {
    &&& s.temperature@ == seq![0i16, 0, 0, 0]
    &&& s.status == 0
    &&& s.config1 == 0
    &&& s.config2 == (match s.model {
        Tmp421Model::Tmp421 => 0x1cu8,
        Tmp421Model::Tmp422 => 0x3cu8,
        Tmp421Model::Tmp423 => 0x7cu8,
    })
    &&& s.rate == 0x07
    &&& s.len == 0
    &&& s.buf0 == 0
    &&& s.buf1 == 0
    &&& s.pointer == 0
}

/// The extended range (-55..150 degrees, offset by 64) is selected.
pub open spec fn tmp421_ext_range(s: Tmp421) -> bool {
    s.config1 & CONFIG_RANGE != 0
}

/// The register encoding of `temp` millidegrees before the range offset.
pub open spec fn tmp421_encode(temp: i64) -> int {
    tdiv(temp * 256 - 128, 1000)
}

/// What setting a temperature needs: in extended range the offset
/// encoding stays within 16 bits.
pub open spec fn tmp421_set_ok(s: Tmp421, temp: i64) -> bool {
    tmp421_ext_range(s) && -55_000 <= temp < 150_000 ==> i16::MIN <= (tmp421_encode(temp) as i16) + 16384
        <= i16::MAX
}

impl Tmp421 {
    /// A sensor of `model` at `address`, reset.
    pub fn new_model(address: u8, model: Tmp421Model) -> (r: Self)
        ensures
            r.address == address,
            r.model == model,
            tmp421_reset(r),
    {
        let r = Tmp421 {
            address,
            model,
            temperature: [0i16; 4],
            status: 0,
            config1: 0,
            config2: model.default_config2(),
            rate: 0x07,
            len: 0,
            buf0: 0,
            buf1: 0,
            pointer: 0,
        };
        proof {
            assert(r.temperature@ =~= seq![0i16, 0, 0, 0]);
        }
        r
    }

    /// A TMP421 at `address`.
    pub fn new(address: u8) -> (r: Self)
        ensures
            r.address == address,
            r.model == Tmp421Model::Tmp421,
            tmp421_reset(r),
    {
        Self::new_model(address, Tmp421Model::Tmp421)
    }

    /// A TMP422 at `address`.
    pub fn new_tmp422(address: u8) -> (r: Self)
        ensures
            r.address == address,
            r.model == Tmp421Model::Tmp422,
            tmp421_reset(r),
    {
        Self::new_model(address, Tmp421Model::Tmp422)
    }

    /// A TMP423 at `address`.
    pub fn new_tmp423(address: u8) -> (r: Self)
        ensures
            r.address == address,
            r.model == Tmp421Model::Tmp423,
            tmp421_reset(r),
    {
        Self::new_model(address, Tmp421Model::Tmp423)
    }

    /// The I2C address.
    pub fn address(&self) -> (r: u8)
        ensures
            r == self.address,
    {
        self.address
    }

    fn reset_state(&mut self)
        ensures
            final(self).address == old(self).address,
            final(self).model == old(self).model,
            tmp421_reset(*final(self)),
    {
        self.temperature = [0i16; 4];
        self.status = 0;
        self.config1 = 0;
        self.config2 = self.model.default_config2();
        self.rate = 0x07;
        self.len = 0;
        self.buf0 = 0;
        self.buf1 = 0;
        self.pointer = 0;
        proof {
            assert(self.temperature@ =~= seq![0i16, 0, 0, 0]);
        }
    }

    /// Return every register to its reset value.
    pub fn reset_runtime(&mut self)
        ensures
            final(self).address == old(self).address,
            final(self).model == old(self).model,
            tmp421_reset(*final(self)),
    {
        self.reset_state();
    }

    /// Set the temperature of `channel` (0..4) in millidegrees Celsius,
    /// which must lie in the selected range: [-40000, 127000), or
    /// [-55000, 150000) in extended range.
    pub fn set_temperature_millicelsius(&mut self, channel: usize, temp: i64) -> (r: Result<(), Tmp421Error>)
        requires
            tmp421_set_ok(*old(self), temp),
        ensures
            channel >= 4 ==> r == Err::<(), Tmp421Error>(Tmp421Error::InvalidChannel) && *final(self)
                == *old(self),
            ({
                let ext = tmp421_ext_range(*old(self));
                let min: int = if ext { -55_000 } else { -40_000 };
                let max: int = if ext { 150_000 } else { 127_000 };
                let value: int = if ext {
                    (tmp421_encode(temp) as i16) + 16384
                } else {
                    tmp421_encode(temp) as i16 as int
                };
                &&& channel < 4 && (temp < min || temp >= max) ==> r == Err::<(), Tmp421Error>(
                    Tmp421Error::TemperatureOutOfRange,
                ) && *final(self) == *old(self)
                &&& channel < 4 && min <= temp < max ==> r is Ok && final(self).temperature@
                    == old(self).temperature@.update(channel as int, value as i16)
                    && *final(self) == (Tmp421 { temperature: final(self).temperature, ..*old(self) })
            }),
    {
        if channel >= 4 {
            return Err(Tmp421Error::InvalidChannel);
        }
        let ext_range = self.config1 & CONFIG_RANGE != 0;
        let min: i64 = if ext_range {
            -55_000
        } else {
            -40_000
        };
        let max: i64 = if ext_range {
            150_000
        } else {
            127_000
        };
        if temp < min || temp >= max {
            return Err(Tmp421Error::TemperatureOutOfRange);
        }
        let offset: i16 = if ext_range {
            16384
        } else {
            0
        };
        let encoded = ((temp * 256 - 128) / 1000) as i16;
        self.temperature[channel] = encoded + offset;
        Ok(())
    }

    /// Load the read buffer from the register the pointer selects.
    fn read_to_buffer(&mut self)
        ensures
            final(self).address == old(self).address && final(self).model == old(self).model,
            final(self).temperature == old(self).temperature,
            final(self).status == old(self).status && final(self).rate == old(self).rate,
            final(self).config1 == old(self).config1 && final(self).config2 == old(self).config2,
            final(self).pointer == old(self).pointer,
            ({
                let s = *old(self);
                let p = s.pointer;
                if p == MANUFACTURER_ID_REG {
                    final(self).buf0 == MANUFACTURER_ID && final(self).len == 1 && final(self).buf1 == s.buf1
                } else if p == DEVICE_ID_REG {
                    final(self).buf0 == (match s.model {
                        Tmp421Model::Tmp421 => TMP421_DEVICE_ID,
                        Tmp421Model::Tmp422 => TMP422_DEVICE_ID,
                        Tmp421Model::Tmp423 => TMP423_DEVICE_ID,
                    }) && final(self).len == 1 && final(self).buf1 == s.buf1
                } else if p == CONFIG_REG_1 {
                    final(self).buf0 == s.config1 && final(self).len == 1 && final(self).buf1 == s.buf1
                } else if p == CONFIG_REG_2 {
                    final(self).buf0 == s.config2 && final(self).len == 1 && final(self).buf1 == s.buf1
                } else if p == CONVERSION_RATE_REG {
                    final(self).buf0 == s.rate && final(self).len == 1 && final(self).buf1 == s.buf1
                } else if p == STATUS_REG {
                    final(self).buf0 == s.status && final(self).len == 1 && final(self).buf1 == s.buf1
                } else if TEMP_MSB0 <= p <= TEMP_MSB3 {
                    let t = s.temperature@[(p - TEMP_MSB0) as int] as u16;
                    final(self).buf0 == (t >> 8u16) as u8 && final(self).buf1 == (t & 0x00f0) as u8
                        && final(self).len == 2
                } else if TEMP_LSB0 <= p <= TEMP_LSB3 {
                    let t = s.temperature@[(p - TEMP_LSB0) as int] as u16;
                    final(self).buf0 == (t & 0x00f0) as u8 && final(self).len == 1 && final(self).buf1
                        == s.buf1
                } else {
                    final(self).buf0 == s.buf0 && final(self).buf1 == s.buf1 && final(self).len == 0
                }
            }),
    {
        self.len = 0;
        let p = self.pointer;
        if p == MANUFACTURER_ID_REG {
            self.buf0 = MANUFACTURER_ID;
            self.len = 1;
        } else if p == DEVICE_ID_REG {
            self.buf0 = self.model.device_id();
            self.len = 1;
        } else if p == CONFIG_REG_1 {
            self.buf0 = self.config1;
            self.len = 1;
        } else if p == CONFIG_REG_2 {
            self.buf0 = self.config2;
            self.len = 1;
        } else if p == CONVERSION_RATE_REG {
            self.buf0 = self.rate;
            self.len = 1;
        } else if p == STATUS_REG {
            self.buf0 = self.status;
            self.len = 1;
        } else if TEMP_MSB0 <= p && p <= TEMP_MSB3 {
            let t = self.temperature[(p - TEMP_MSB0) as usize] as u16;
            self.buf0 = (t >> 8u16) as u8;
            self.buf1 = (t & 0x00f0) as u8;
            self.len = 2;
        } else if TEMP_LSB0 <= p && p <= TEMP_LSB3 {
            let t = self.temperature[(p - TEMP_LSB0) as usize] as u16;
            self.buf0 = (t & 0x00f0) as u8;
            self.len = 1;
        }
    }

    /// An I2C bus event: the start of a read loads the register the
    /// pointer selects; every event restarts the byte count.
    pub fn event(&mut self, event: I2cEvent)
        ensures
            final(self).len == 0,
            final(self).address == old(self).address && final(self).model == old(self).model,
            final(self).temperature == old(self).temperature,
            final(self).status == old(self).status && final(self).rate == old(self).rate,
            final(self).config1 == old(self).config1 && final(self).config2 == old(self).config2,
            final(self).pointer == old(self).pointer,
            event != I2cEvent::StartRecv ==> final(self).buf0 == old(self).buf0 && final(self).buf1
                == old(self).buf1,
    {
        if event == I2cEvent::StartRecv {
            self.read_to_buffer();
        }
        self.len = 0;
    }

    /// A byte from the bus master: the first selects the register, the
    /// second is written to it (the reset register resets the sensor).
    pub fn send(&mut self, data: u8)
        ensures
            old(self).len == 0 ==> final(self).pointer == data && final(self).len == 1
                && final(self).temperature == old(self).temperature && final(self).config1
                == old(self).config1 && final(self).config2 == old(self).config2
                && final(self).rate == old(self).rate,
            old(self).len == 1 && old(self).pointer == CONVERSION_RATE_REG ==> final(self).rate == data,
            old(self).len == 1 && old(self).pointer == CONFIG_REG_1 ==> final(self).config1 == data,
            old(self).len == 1 && old(self).pointer == CONFIG_REG_2 ==> final(self).config2 == data,
            old(self).len == 1 && old(self).pointer == RESET_REG ==> tmp421_reset(*final(self)),
            old(self).len >= 2 ==> final(self).temperature == old(self).temperature
                && final(self).len == old(self).len && final(self).pointer == old(self).pointer
                && final(self).config1 == old(self).config1 && final(self).rate == old(self).rate,
            final(self).address == old(self).address && final(self).model == old(self).model,
    {
        if self.len == 0 {
            self.pointer = data;
            self.len = 1;
        } else if self.len == 1 {
            self.buf0 = data;
            let p = self.pointer;
            if p == CONVERSION_RATE_REG {
                self.rate = data;
            } else if p == CONFIG_REG_1 {
                self.config1 = data;
            } else if p == CONFIG_REG_2 {
                self.config2 = data;
            } else if p == RESET_REG {
                self.reset_state();
            }
        }
    }

    /// A byte to the bus master: the loaded register bytes, then 0xFF.
    pub fn recv(&mut self) -> (r: u8)
        ensures
            old(self).len == 0 ==> r == old(self).buf0 && final(self).len == 1,
            old(self).len == 1 ==> r == old(self).buf1 && final(self).len == 2,
            old(self).len >= 2 ==> r == 0xff && final(self).len == old(self).len,
            final(self).temperature == old(self).temperature && final(self).pointer == old(self).pointer,
            final(self).buf0 == old(self).buf0 && final(self).buf1 == old(self).buf1,
    {
        if self.len == 0 {
            self.len = 1;
            self.buf0
        } else if self.len == 1 {
            self.len = 2;
            self.buf1
        } else {
            0xff
        }
    }
}


/// Reading the temperature register delivers the temperature (in 1/256
/// degree) high byte first, then the low byte cut to the configured
/// resolution: the two bytes, high then low, make the temperature with
/// its low bits cleared (9 to 12 bits kept as configuration bits 5-6
/// say). A read starts with no byte yet sent.
pub proof fn lemma_tmp105_temperature_read(s: Tmp105)
    requires
        s.pointer & 3 == 0,
    ensures
        ({
            let t = tmp105_after_event(s, I2cEvent::StartRecv);
            &&& t.len == 0
            &&& ((t.buf0 as u16) << 8u16) | (t.buf1 as u16) == (s.temperature as u16) & !(0x7fu16 >> ((s.config
                >> 5u8) & 3u8))
        }),
{
    let temp = s.temperature as u16;
    let config = s.config;
    let t = tmp105_after_event(s, I2cEvent::StartRecv);
    assert(t.buf0 == (temp >> 8u16) as u8);
    assert(t.buf1 == (temp as u8) & ((0x00f0u16 << (((!config) >> 5u8) & 3u8)) as u8));
    lemma_sensor_bytes(temp, config, 0);
}

proof fn lemma_sensor_bytes(temp: u16, config: u8, x: u16)
    ensures
        (((temp >> 8u16) as u8 as u16) << 8u16) | ((((temp as u8) & ((0x00f0u16 << (((!config) >> 5u8) & 3u8))
            as u8)) as u16)) == temp & !(0x7fu16 >> ((config >> 5u8) & 3u8)),
        (((x >> 8u16) as u8 as u16) << 8u16) | ((x as u8) as u16) == x,
{
    assert((((temp >> 8u16) as u8 as u16) << 8u16) | ((((temp as u8) & ((0x00f0u16 << (((!config) >> 5u8) & 3u8))
        as u8)) as u16)) == temp & !(0x7fu16 >> ((config >> 5u8) & 3u8)) && (((x >> 8u16) as u8 as u16) << 8u16)
        | ((x as u8) as u16) == x) by (bit_vector);
}


/// Reading the configuration register delivers the configuration byte;
/// reading a limit register delivers the limit high byte first, then its
/// low byte.
pub proof fn lemma_tmp105_register_read(s: Tmp105)
    requires
        s.pointer & 3 != 0,
    ensures
        ({
            let t = tmp105_after_event(s, I2cEvent::StartRecv);
            &&& t.len == 0
            &&& s.pointer & 3 == 1 ==> t.buf0 == s.config
            &&& s.pointer & 3 == 2 ==> ((t.buf0 as u16) << 8u16) | (t.buf1 as u16) == s.limit_low as u16
            &&& s.pointer & 3 == 3 ==> ((t.buf0 as u16) << 8u16) | (t.buf1 as u16) == s.limit_high as u16
        }),
{
    lemma_sensor_bytes(0, 0, s.limit_low as u16);
    lemma_sensor_bytes(0, 0, s.limit_high as u16);
}

} // verus!
