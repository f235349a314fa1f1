//! Small miscellaneous devices: LED, pvpanic, unimplemented-device
//! placeholder, virt power controller and the SiFive E PRCI block.
use vstd::prelude::*;

verus! {

/// Full LED intensity, in percent.
pub const INTENSITY_MAX: u8 = 100;

/// LED colour.
#[derive(Debug, Clone, Copy, PartialEq, Eq, Structural)]
pub enum LedColor {
    Violet,
    Blue,
    Cyan,
    Green,
    Yellow,
    Amber,
    Orange,
    Red,
}

impl LedColor {
    /// The colour's lower-case name.
    pub fn as_str(&self) -> (r: &'static str)
        ensures
            r@ == (match *self {
                LedColor::Violet => "violet"@,
                LedColor::Blue => "blue"@,
                LedColor::Cyan => "cyan"@,
                LedColor::Green => "green"@,
                LedColor::Yellow => "yellow"@,
                LedColor::Amber => "amber"@,
                LedColor::Orange => "orange"@,
                LedColor::Red => "red"@,
            }),
    {
        match self {
            LedColor::Violet => "violet",
            LedColor::Blue => "blue",
            LedColor::Cyan => "cyan",
            LedColor::Green => "green",
            LedColor::Yellow => "yellow",
            LedColor::Amber => "amber",
            LedColor::Orange => "orange",
            LedColor::Red => "red",
        }
    }
}

/// A GPIO-driven LED.
pub struct Led {
    intensity: u8,
    gpio_active_high: bool,
    color: LedColor,
    description: String,
}

impl Led {
    /// The intensity in percent.
    pub closed spec fn spec_intensity(&self) -> u8 {
        self.intensity
    }

    /// Whether a high GPIO level lights the LED.
    pub closed spec fn spec_active_high(&self) -> bool {
        self.gpio_active_high
    }

    /// The LED colour.
    pub closed spec fn spec_color(&self) -> LedColor {
        self.color
    }

    /// The description text.
    pub closed spec fn spec_description(&self) -> Seq<char> {
        self.description@
    }

    /// An LED that starts lit when active-high and dark otherwise.
    pub fn new(color: LedColor, description: &str, gpio_active_high: bool) -> (r: Self)
        ensures
            r.spec_intensity() == (if gpio_active_high {
                INTENSITY_MAX
            } else {
                0
            }),
            r.spec_active_high() == gpio_active_high,
            r.spec_color() == color,
            r.spec_description() == description@,
    {
        let initial = if gpio_active_high {
            INTENSITY_MAX
        } else {
            0
        };
        Led {
            intensity: initial,
            gpio_active_high,
            color,
            description: description.to_string(),
        }
    }

    /// Set the intensity, saturated at 100 %.
    pub fn set_intensity(&mut self, percent: u8)
        ensures
            final(self).spec_intensity() == (if percent < INTENSITY_MAX {
                percent
            } else {
                INTENSITY_MAX
            }),
            final(self).spec_active_high() == old(self).spec_active_high(),
            final(self).spec_color() == old(self).spec_color(),
            final(self).spec_description() == old(self).spec_description(),
    {
        self.intensity = if percent < INTENSITY_MAX {
            percent
        } else {
            INTENSITY_MAX
        };
    }

    /// The intensity in percent.
    pub fn get_intensity(&self) -> (r: u8)
        ensures
            r == self.spec_intensity(),
    {
        self.intensity
    }

    /// Light the LED fully or switch it off.
    pub fn set_state(&mut self, is_emitting: bool)
        ensures
            final(self).spec_intensity() == (if is_emitting {
                INTENSITY_MAX
            } else {
                0
            }),
            final(self).spec_active_high() == old(self).spec_active_high(),
            final(self).spec_color() == old(self).spec_color(),
            final(self).spec_description() == old(self).spec_description(),
    {
        self.set_intensity(if is_emitting {
            INTENSITY_MAX
        } else {
            0
        });
    }

    /// Drive the GPIO line: the LED lights when the level equals its
    /// active level.
    pub fn set_gpio(&mut self, level: bool)
        ensures
            final(self).spec_intensity() == (if level == old(self).spec_active_high() {
                INTENSITY_MAX
            } else {
                0
            }),
            final(self).spec_active_high() == old(self).spec_active_high(),
            final(self).spec_color() == old(self).spec_color(),
            final(self).spec_description() == old(self).spec_description(),
    {
        let is_emitting = level == self.gpio_active_high;
        self.set_state(is_emitting);
    }

    /// The colour.
    pub fn color(&self) -> (r: LedColor)
        ensures
            r == self.spec_color(),
    {
        self.color
    }

    /// The description.
    pub fn description(&self) -> (r: &str)
        ensures
            r@ == self.spec_description(),
    {
        self.description.as_str()
    }

    /// Whether a high GPIO level lights the LED.
    pub fn gpio_active_high(&self) -> (r: bool)
        ensures
            r == self.spec_active_high(),
    {
        self.gpio_active_high
    }

    /// Return to the initial intensity.
    pub fn reset_runtime(&mut self)
        ensures
            final(self).spec_intensity() == (if old(self).spec_active_high() {
                INTENSITY_MAX
            } else {
                0
            }),
            final(self).spec_active_high() == old(self).spec_active_high(),
            final(self).spec_color() == old(self).spec_color(),
            final(self).spec_description() == old(self).spec_description(),
    {
        self.intensity = if self.gpio_active_high {
            INTENSITY_MAX
        } else {
            0
        };
    }
}

pub const PVPANIC_PANICKED: u8 = 0x01;
pub const PVPANIC_CRASH_LOADED: u8 = 0x02;
pub const PVPANIC_SHUTDOWN: u8 = 0x04;
/// Size of the pvpanic MMIO window.
pub const PVPANIC_MMIO_SIZE: u64 = 0x2;

/// The event reported for a written byte: the highest-priority bit set
/// (panicked, then crash-loaded, then shutdown), if any.
pub open spec fn pvpanic_event(byte: u8) -> Option<u8> {
    if byte & PVPANIC_PANICKED != 0 {
        Some(PVPANIC_PANICKED)
    } else if byte & PVPANIC_CRASH_LOADED != 0 {
        Some(PVPANIC_CRASH_LOADED)
    } else if byte & PVPANIC_SHUTDOWN != 0 {
        Some(PVPANIC_SHUTDOWN)
    } else {
        None
    }
}

/// The events reported for the first `n` bytes of `val`, in order.
pub open spec fn pvpanic_events(val: u64, n: nat) -> Seq<u8>
    decreases n,
{
    if n == 0 {
        Seq::empty()
    } else {
        let prev = pvpanic_events(val, (n - 1) as nat);
        match pvpanic_event(((val / crate::bytes::pow256((n - 1) as nat) as u64) % 256) as u8) {
            Some(e) => prev.push(e),
            None => prev,
        }
    }
}

/// The pvpanic device: advertises the events it supports and reports
/// guest panic events.
pub struct Pvpanic {
    pub events: u8,
}

impl Pvpanic {
    /// A device advertising `events`.
    pub fn new(events: u8) -> (r: Self)
        ensures
            r.events == events,
    {
        Pvpanic { events }
    }

    /// A read returns the supported-events byte in every byte lane of a
    /// 1-, 2- or 4-byte access; other widths read 0.
    pub fn do_read(&self, size: u32) -> (r: u64)
        ensures
            r == (if size == 1 {
                self.events as u64
            } else if size == 2 {
                (self.events as u64 * 0x101) as u64
            } else if size == 4 {
                (self.events as u64 * 0x0101_0101) as u64
            } else {
                0
            }),
    {
        let b = self.events as u64;
        if size == 1 {
            b
        } else if size == 2 {
            b * 0x101
        } else if size == 4 {
            b * 0x0101_0101
        } else {
            0
        }
    }

    /// The event of one written byte.
    pub fn dispatch_event(event: u8) -> (r: Option<u8>)
        ensures
            r == pvpanic_event(event),
    {
        if event & PVPANIC_PANICKED != 0 {
            Some(PVPANIC_PANICKED)
        } else if event & PVPANIC_CRASH_LOADED != 0 {
            Some(PVPANIC_CRASH_LOADED)
        } else if event & PVPANIC_SHUTDOWN != 0 {
            Some(PVPANIC_SHUTDOWN)
        } else {
            None
        }
    }

    /// The events a 1-, 2- or 4-byte write reports, byte lane by byte
    /// lane from the lowest; other widths report nothing.
    pub fn do_write(&self, size: u32, val: u64) -> (r: Vec<u8>)
        ensures
            r@ == (if size == 1 || size == 2 || size == 4 {
                pvpanic_events(val, size as nat)
            } else {
                Seq::empty()
            }),
    {
        let mut out: Vec<u8> = Vec::new();
        if !(size == 1 || size == 2 || size == 4) {
            return out;
        }
        let mut byte: u32 = 0;
        let mut scale: u64 = 1;
        while byte < size
            invariant
                byte <= size,
                size <= 4,
                scale == crate::bytes::pow256(byte as nat),
                scale == (if byte == 0 {
                    1u64
                } else if byte == 1 {
                    256u64
                } else if byte == 2 {
                    65536u64
                } else if byte == 3 {
                    16777216u64
                } else {
                    4294967296u64
                }),
                out@ == pvpanic_events(val, byte as nat),
            decreases size - byte,
        {
            let event = ((val / scale) % 256) as u8;
            match Self::dispatch_event(event) {
                Some(e) => out.push(e),
                None => {},
            }
            byte = byte + 1;
            proof {
                reveal_with_fuel(crate::bytes::pow256, 5);
            }
            scale = scale * 256;
        }
        out
    }
}

/// A placeholder for an unimplemented device: reads 0, ignores writes.
pub struct Unimp {
    pub name: String,
    pub size: u64,
}

impl Unimp {
    /// A placeholder called `name` covering `size` bytes.
    pub fn new(name: &str, size: u64) -> (r: Self)
        ensures
            r.name@ == name@,
            r.size == size,
    {
        Unimp { name: name.to_string(), size }
    }

    /// The configured name.
    pub fn name(&self) -> (r: &str)
        ensures
            r@ == self.name@,
    {
        self.name.as_str()
    }

    /// The configured size.
    pub fn size(&self) -> (r: u64)
        ensures
            r == self.size,
    {
        self.size
    }

    /// Whether the device may be realized: it must cover some bytes.
    pub fn can_realize(&self) -> (r: bool)
        ensures
            r == (self.size != 0),
    {
        self.size != 0
    }

    /// Every read returns 0.
    pub fn do_read(&self, offset: u64, size: u32) -> (r: u64)
        ensures
            r == 0,
    {
        0
    }

    /// Writes are ignored.
    pub fn do_write(&self, offset: u64, size: u32, val: u64) {
    }
}

pub const VIRT_CTRL_REG_FEATURES: u64 = 0x00;
pub const VIRT_CTRL_REG_CMD: u64 = 0x04;
pub const VIRT_CTRL_FEAT_POWER_CTRL: u32 = 0x1;
pub const VIRT_CTRL_REG_SIZE: u64 = 0x100;

/// A power-control request of the guest.
#[derive(Debug, Clone, Copy, PartialEq, Eq, Structural)]
pub enum VirtCtrlAction {
    Reset,
    Halt,
    Panic,
}

/// The virt power controller.
pub struct VirtCtrl;

impl VirtCtrl {
    /// The controller.
    pub fn new() -> (r: Self) {
        VirtCtrl
    }

    /// Reads of up to 4 bytes return the feature word at offset 0 and 0
    /// elsewhere; wider reads return 0.
    pub fn do_read(&self, offset: u64, size: u32) -> (r: u64)
        ensures
            r == (if size <= 4 && offset == VIRT_CTRL_REG_FEATURES {
                VIRT_CTRL_FEAT_POWER_CTRL as u64
            } else {
                0
            }),
    {
        if size > 4 {
            return 0;
        }
        if offset == VIRT_CTRL_REG_FEATURES {
            VIRT_CTRL_FEAT_POWER_CTRL as u64
        } else {
            0
        }
    }

    /// A write of up to 4 bytes to the command register requests reset
    /// (1), halt (2) or panic (3); anything else requests nothing.
    pub fn do_write(&self, offset: u64, size: u32, val: u64) -> (r: Option<VirtCtrlAction>)
        ensures
            r == (if size <= 4 && offset == VIRT_CTRL_REG_CMD {
                if val as u32 == 1 {
                    Some(VirtCtrlAction::Reset)
                } else if val as u32 == 2 {
                    Some(VirtCtrlAction::Halt)
                } else if val as u32 == 3 {
                    Some(VirtCtrlAction::Panic)
                } else {
                    None
                }
            } else {
                None
            }),
    {
        if size > 4 || offset != VIRT_CTRL_REG_CMD {
            return None;
        }
        let cmd = val as u32;
        if cmd == 1 {
            Some(VirtCtrlAction::Reset)
        } else if cmd == 2 {
            Some(VirtCtrlAction::Halt)
        } else if cmd == 3 {
            Some(VirtCtrlAction::Panic)
        } else {
            None
        }
    }
}

pub const HFROSCCFG: u64 = 0x00;
pub const HFXOSCCFG: u64 = 0x04;
pub const PLLCFG: u64 = 0x08;
pub const PLLOUTDIV: u64 = 0x0C;
pub const OSC_RDY: u32 = 0x8000_0000;
pub const OSC_EN: u32 = 0x4000_0000;
pub const PLLCFG_REFSEL: u32 = 0x2_0000;
pub const PLLCFG_BYPASS: u32 = 0x4_0000;
pub const PLLCFG_LOCK: u32 = 0x8000_0000;
pub const PLLOUTDIV_DIV1: u32 = 0x100;
pub const SIFIVE_E_PRCI_REG_SIZE: u64 = 0x1000;

/// The SiFive E PRCI (clock) block: oscillators are always ready and
/// the PLL always locked.
pub struct SifiveEPrci {
    pub hfrosccfg: u32,
    pub hfxosccfg: u32,
    pub pllcfg: u32,
    pub plloutdiv: u32,
}

impl SifiveEPrci {
    /// Registers at reset: both oscillators enabled and ready, PLL
    /// bypassed and locked, output divider 1.
    pub fn new() -> (r: Self)
        ensures
            r == (SifiveEPrci {
                hfrosccfg: OSC_RDY | OSC_EN,
                hfxosccfg: OSC_RDY | OSC_EN,
                pllcfg: PLLCFG_REFSEL | PLLCFG_BYPASS | PLLCFG_LOCK,
                plloutdiv: PLLOUTDIV_DIV1,
            }),
    {
        SifiveEPrci {
            hfrosccfg: OSC_RDY | OSC_EN,
            hfxosccfg: OSC_RDY | OSC_EN,
            pllcfg: PLLCFG_REFSEL | PLLCFG_BYPASS | PLLCFG_LOCK,
            plloutdiv: PLLOUTDIV_DIV1,
        }
    }

    /// A guest read.
    pub fn read(&self, offset: u64) -> (r: u64)
        ensures
            r == (if offset == HFROSCCFG {
                self.hfrosccfg as u64
            } else if offset == HFXOSCCFG {
                self.hfxosccfg as u64
            } else if offset == PLLCFG {
                self.pllcfg as u64
            } else if offset == PLLOUTDIV {
                self.plloutdiv as u64
            } else {
                0
            }),
    {
        if offset == HFROSCCFG {
            self.hfrosccfg as u64
        } else if offset == HFXOSCCFG {
            self.hfxosccfg as u64
        } else if offset == PLLCFG {
            self.pllcfg as u64
        } else if offset == PLLOUTDIV {
            self.plloutdiv as u64
        } else {
            0
        }
    }

    /// A guest write; the ready and lock bits always read back set.
    pub fn write(&mut self, offset: u64, val: u64)
        ensures
            *final(self) == (if offset == HFROSCCFG {
                SifiveEPrci { hfrosccfg: (val as u32) | OSC_RDY, ..*old(self) }
            } else if offset == HFXOSCCFG {
                SifiveEPrci { hfxosccfg: (val as u32) | OSC_RDY, ..*old(self) }
            } else if offset == PLLCFG {
                SifiveEPrci { pllcfg: (val as u32) | PLLCFG_LOCK, ..*old(self) }
            } else if offset == PLLOUTDIV {
                SifiveEPrci { plloutdiv: val as u32, ..*old(self) }
            } else {
                *old(self)
            }),
    {
        let v = val as u32;
        if offset == HFROSCCFG {
            self.hfrosccfg = v | OSC_RDY;
        } else if offset == HFXOSCCFG {
            self.hfxosccfg = v | OSC_RDY;
        } else if offset == PLLCFG {
            self.pllcfg = v | PLLCFG_LOCK;
        } else if offset == PLLOUTDIV {
            self.plloutdiv = v;
        }
    }
}

pub const U_HFXOSCCFG: u64 = 0x00;
pub const U_COREPLLCFG0: u64 = 0x04;
pub const U_DDRPLLCFG0: u64 = 0x0C;
pub const U_DDRPLLCFG1: u64 = 0x10;
pub const U_GEMGXLPLLCFG0: u64 = 0x1C;
pub const U_GEMGXLPLLCFG1: u64 = 0x20;
pub const U_CORECLKSEL: u64 = 0x24;
pub const U_DEVICESRESET: u64 = 0x28;
pub const U_CLKMUXSTATUS: u64 = 0x2C;
pub const U_HFXOSCCFG_EN: u32 = 0x4000_0000;
pub const U_HFXOSCCFG_RDY: u32 = 0x8000_0000;
pub const U_PLLCFG0_FSE: u32 = 0x200_0000;
pub const U_PLLCFG0_LOCK: u32 = 0x8000_0000;
/// DIVR 1, DIVF 31, DIVQ 3, internal feedback, locked.
pub const U_PLLCFG0_DEFAULT: u32 = 0x8201_87C1;
pub const U_CORECLKSEL_HFCLK: u32 = 1;
pub const SIFIVE_U_PRCI_REG_SIZE: u64 = 0x1000;

/// The SiFive U (FU540) PRCI block: the oscillator always reads ready
/// and every PLL locked with internal feedback.
pub struct SifiveUPRCI {
    pub hfxosccfg: u32,
    pub corepllcfg0: u32,
    pub ddrpllcfg0: u32,
    pub ddrpllcfg1: u32,
    pub gemgxlpllcfg0: u32,
    pub gemgxlpllcfg1: u32,
    pub coreclksel: u32,
    pub devicesreset: u32,
    pub clkmuxstatus: u32,
}

/// The value of a guest read of `size` bytes at `offset`.
pub open spec fn u_prci_read(s: SifiveUPRCI, offset: u64, size: u32) -> u64 {
    if size != 4 {
        0
    } else if offset == U_HFXOSCCFG {
        s.hfxosccfg as u64
    } else if offset == U_COREPLLCFG0 {
        s.corepllcfg0 as u64
    } else if offset == U_DDRPLLCFG0 {
        s.ddrpllcfg0 as u64
    } else if offset == U_DDRPLLCFG1 {
        s.ddrpllcfg1 as u64
    } else if offset == U_GEMGXLPLLCFG0 {
        s.gemgxlpllcfg0 as u64
    } else if offset == U_GEMGXLPLLCFG1 {
        s.gemgxlpllcfg1 as u64
    } else if offset == U_CORECLKSEL {
        s.coreclksel as u64
    } else if offset == U_DEVICESRESET {
        s.devicesreset as u64
    } else if offset == U_CLKMUXSTATUS {
        s.clkmuxstatus as u64
    } else {
        0
    }
}

/// The registers after a guest write of `size` bytes at `offset`.
pub open spec fn u_prci_write(s: SifiveUPRCI, offset: u64, size: u32, val: u64) -> SifiveUPRCI {
    let v = val as u32;
    if size != 4 {
        s
    } else if offset == U_HFXOSCCFG {
        SifiveUPRCI { hfxosccfg: v | U_HFXOSCCFG_RDY, ..s }
    } else if offset == U_COREPLLCFG0 {
        SifiveUPRCI { corepllcfg0: v | U_PLLCFG0_FSE | U_PLLCFG0_LOCK, ..s }
    } else if offset == U_DDRPLLCFG0 {
        SifiveUPRCI { ddrpllcfg0: v | U_PLLCFG0_FSE | U_PLLCFG0_LOCK, ..s }
    } else if offset == U_DDRPLLCFG1 {
        SifiveUPRCI { ddrpllcfg1: v, ..s }
    } else if offset == U_GEMGXLPLLCFG0 {
        SifiveUPRCI { gemgxlpllcfg0: v | U_PLLCFG0_FSE | U_PLLCFG0_LOCK, ..s }
    } else if offset == U_GEMGXLPLLCFG1 {
        SifiveUPRCI { gemgxlpllcfg1: v, ..s }
    } else if offset == U_CORECLKSEL {
        SifiveUPRCI { coreclksel: v, ..s }
    } else if offset == U_DEVICESRESET {
        SifiveUPRCI { devicesreset: v, ..s }
    } else if offset == U_CLKMUXSTATUS {
        SifiveUPRCI { clkmuxstatus: v, ..s }
    } else {
        s
    }
}

impl SifiveUPRCI {
    /// Registers at power-on.
    pub fn new() -> (r: Self)
        ensures
            r == (SifiveUPRCI {
                hfxosccfg: U_HFXOSCCFG_RDY | U_HFXOSCCFG_EN,
                corepllcfg0: U_PLLCFG0_DEFAULT,
                ddrpllcfg0: U_PLLCFG0_DEFAULT,
                ddrpllcfg1: 0,
                gemgxlpllcfg0: U_PLLCFG0_DEFAULT,
                gemgxlpllcfg1: 0,
                coreclksel: U_CORECLKSEL_HFCLK,
                devicesreset: 0,
                clkmuxstatus: 0,
            }),
    {
        SifiveUPRCI {
            hfxosccfg: U_HFXOSCCFG_RDY | U_HFXOSCCFG_EN,
            corepllcfg0: U_PLLCFG0_DEFAULT,
            ddrpllcfg0: U_PLLCFG0_DEFAULT,
            ddrpllcfg1: 0,
            gemgxlpllcfg0: U_PLLCFG0_DEFAULT,
            gemgxlpllcfg1: 0,
            coreclksel: U_CORECLKSEL_HFCLK,
            devicesreset: 0,
            clkmuxstatus: 0,
        }
    }

    /// Reset restores the oscillator, the three PLL configurations and
    /// the clock select; the other registers keep their values.
    pub fn reset_runtime(&mut self)
        ensures
            *final(self) == (SifiveUPRCI {
                hfxosccfg: U_HFXOSCCFG_RDY | U_HFXOSCCFG_EN,
                corepllcfg0: U_PLLCFG0_DEFAULT,
                ddrpllcfg0: U_PLLCFG0_DEFAULT,
                gemgxlpllcfg0: U_PLLCFG0_DEFAULT,
                coreclksel: U_CORECLKSEL_HFCLK,
                ..*old(self)
            }),
    {
        self.hfxosccfg = U_HFXOSCCFG_RDY | U_HFXOSCCFG_EN;
        self.corepllcfg0 = U_PLLCFG0_DEFAULT;
        self.ddrpllcfg0 = U_PLLCFG0_DEFAULT;
        self.gemgxlpllcfg0 = U_PLLCFG0_DEFAULT;
        self.coreclksel = U_CORECLKSEL_HFCLK;
    }

    /// A guest read; only 4-byte accesses are served.
    pub fn do_read(&self, offset: u64, size: u32) -> (r: u64)
        ensures
            r == u_prci_read(*self, offset, size),
    {
        if size != 4 {
            return 0;
        }
        if offset == U_HFXOSCCFG {
            self.hfxosccfg as u64
        } else if offset == U_COREPLLCFG0 {
            self.corepllcfg0 as u64
        } else if offset == U_DDRPLLCFG0 {
            self.ddrpllcfg0 as u64
        } else if offset == U_DDRPLLCFG1 {
            self.ddrpllcfg1 as u64
        } else if offset == U_GEMGXLPLLCFG0 {
            self.gemgxlpllcfg0 as u64
        } else if offset == U_GEMGXLPLLCFG1 {
            self.gemgxlpllcfg1 as u64
        } else if offset == U_CORECLKSEL {
            self.coreclksel as u64
        } else if offset == U_DEVICESRESET {
            self.devicesreset as u64
        } else if offset == U_CLKMUXSTATUS {
            self.clkmuxstatus as u64
        } else {
            0
        }
    }

    /// A guest write; only 4-byte accesses are served. The oscillator
    /// ready bit and the PLL lock and feedback bits always stay set.
    pub fn do_write(&mut self, offset: u64, size: u32, val: u64)
        ensures
            *final(self) == u_prci_write(*old(self), offset, size, val),
    {
        if size != 4 {
            return;
        }
        let v = val as u32;
        if offset == U_HFXOSCCFG {
            self.hfxosccfg = v | U_HFXOSCCFG_RDY;
        } else if offset == U_COREPLLCFG0 {
            self.corepllcfg0 = v | U_PLLCFG0_FSE | U_PLLCFG0_LOCK;
        } else if offset == U_DDRPLLCFG0 {
            self.ddrpllcfg0 = v | U_PLLCFG0_FSE | U_PLLCFG0_LOCK;
        } else if offset == U_DDRPLLCFG1 {
            self.ddrpllcfg1 = v;
        } else if offset == U_GEMGXLPLLCFG0 {
            self.gemgxlpllcfg0 = v | U_PLLCFG0_FSE | U_PLLCFG0_LOCK;
        } else if offset == U_GEMGXLPLLCFG1 {
            self.gemgxlpllcfg1 = v;
        } else if offset == U_CORECLKSEL {
            self.coreclksel = v;
        } else if offset == U_DEVICESRESET {
            self.devicesreset = v;
        } else if offset == U_CLKMUXSTATUS {
            self.clkmuxstatus = v;
        }
    }
}

} // verus!
