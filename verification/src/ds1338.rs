//! Dallas DS1338 I2C real-time clock with NVRAM.
use vstd::prelude::*;

verus! {

/// Size of the register file (time registers, control and user RAM).
pub const NVRAM_SIZE: usize = 64;
/// Oscillator-stop flag of the control register.
pub const CTRL_OSF: u8 = 0x20;
/// 12-hour mode bit of the hours register.
pub const HOURS_12: u8 = 0x40;
/// PM bit of the hours register in 12-hour mode.
pub const HOURS_PM: u8 = 0x20;

/// Remainder of `a / b` truncated toward zero (Rust's `%`).
pub open spec fn trem(a: int, b: int) -> int {
    if a >= 0 {
        a % b
    } else {
        -((-a) % b)
    }
}

/// Quotient of `a / b` truncated toward zero (Rust's `/`).
pub open spec fn tdiv(a: int, b: int) -> int {
    if a >= 0 {
        a / b
    } else {
        -((-a) / b)
    }
}

/// Binary-coded decimal of `val`, saturated at 99.
pub open spec fn bcd_of(val: u8) -> u8 {
    let v = if val >= 100 {
        99
    } else {
        val
    };
    ((v / 10) * 16 + v % 10) as u8
}

/// Binary value of the BCD byte `val`.
pub open spec fn bcd_value(val: u8) -> u8 {
    ((val / 16) * 10 + val % 16) as u8
}

/// Encode `val` (values above 99 read as 99) as two BCD digits.
pub fn to_bcd(val: u8) -> (r: u8)
    ensures
        r == bcd_of(val),
{
    let v = if val >= 100 {
        99
    } else {
        val
    };
    (v / 10) * 16 + v % 10
}

/// Decode two BCD digits.
pub fn from_bcd(val: u8) -> (r: u8)
    ensures
        r == bcd_value(val),
{
    (val / 16) * 10 + val % 16
}

/// BCD encoding and decoding are inverse on 0..=99.
pub proof fn lemma_bcd_roundtrip(v: u8)
    requires
        v < 100,
    ensures
        bcd_value(bcd_of(v)) == v,
{
}

/// Gregorian leap year.
pub open spec fn leap(year: int) -> bool {
    (year % 4 == 0 && year % 100 != 0) || year % 400 == 0
}

/// Days in `year`.
pub open spec fn year_len(year: int) -> int {
    if leap(year) {
        366
    } else {
        365
    }
}

/// Days from 1970-01-01 to January 1st of `year`.
pub open spec fn days_before_year(year: int) -> int
    decreases year - 1970,
{
    if year <= 1970 {
        0
    } else {
        days_before_year(year - 1) + year_len(year - 1)
    }
}

/// Days in month `mon` (1..=12) of `year`.
pub open spec fn month_len(year: int, mon: int) -> int {
    if mon == 2 {
        if leap(year) {
            29
        } else {
            28
        }
    } else if mon == 4 || mon == 6 || mon == 9 || mon == 11 {
        30
    } else {
        31
    }
}

/// Days from January 1st to the first day of month `mon` of `year`.
pub open spec fn days_before_month(year: int, mon: int) -> int
    decreases mon,
{
    if mon <= 1 {
        0
    } else {
        days_before_month(year, mon - 1) + month_len(year, mon - 1)
    }
}

/// Gregorian leap-year test.
pub fn is_leap(year: i64) -> (r: bool)
    ensures
        r == leap(year as int),
{
    (year % 4 == 0 && year % 100 != 0) || year % 400 == 0
}

/// The calendar date `days` days after 1970-01-01: year, month (1..=12)
/// and day of month. A negative count gives 1970-01 with the day byte
/// `days + 1` truncated to 8 bits.
pub fn days_to_date(days: i64) -> (r: (i64, u8, u8))
    ensures
        days >= 0 ==> {
            &&& r.0 >= 1970
            &&& 1 <= r.1 <= 12
            &&& 1 <= r.2 <= month_len(r.0 as int, r.1 as int)
            &&& days == days_before_year(r.0 as int) + days_before_month(r.0 as int, r.1 as int) + r.2
                - 1
        },
        days < 0 ==> r == (1970i64, 1u8, (days + 1) as u8),
{
    let mut d = days;
    let mut year: i64 = 1970;
    let ghost d0 = days;
    loop
        invariant_except_break
            year >= 1970,
            d0 == days,
            d0 >= 0 ==> d >= 0 && d + days_before_year(year as int) == d0,
            d0 >= 0 ==> (year - 1970) * 365 <= d0 - d,
            d0 < 0 ==> d == d0 && year == 1970,
        ensures
            year >= 1970,
            d0 >= 0 ==> 0 <= d < year_len(year as int) && d + days_before_year(year as int) == d0,
            d0 < 0 ==> d == d0 && year == 1970,
        decreases d + 1,
    {
        let days_in_year: i64 = if is_leap(year) {
            366
        } else {
            365
        };
        if d < days_in_year {
            break;
        }
        d = d - days_in_year;
        year = year + 1;
    }
    let leap_year = is_leap(year);
    let mut mon: u8 = 1;
    let mut i: u8 = 1;
    while i <= 12
        invariant_except_break
            1 <= i <= 13,
            mon == i,
            d0 >= 0 ==> d >= 0 && d + days_before_month(year as int, mon as int) + days_before_year(
                year as int,
            ) == d0,
            d0 >= 0 ==> days_before_month(year as int, mon as int) + d < year_len(year as int),
            d0 < 0 ==> d == d0 && mon == 1 && year == 1970,
            d0 >= 0 ==> i <= 12,
            leap_year == leap(year as int),
            year >= 1970,
        ensures
            1 <= mon <= 13,
            d0 >= 0 ==> d >= 0 && d + days_before_month(year as int, mon as int) + days_before_year(
                year as int,
            ) == d0,
            d0 >= 0 ==> (mon <= 12 && d < month_len(year as int, mon as int)),
            d0 < 0 ==> d == d0 && mon == 1 && year == 1970,
        decreases 13 - i,
    {
        let md: i64 = if i == 2 {
            if leap_year {
                29
            } else {
                28
            }
        } else if i == 4 || i == 6 || i == 9 || i == 11 {
            30
        } else {
            31
        };
        proof {
            assert(md == month_len(year as int, i as int));
            if d0 >= 0 && i == 12 {
                assert(days_before_month(year as int, 12) + 31 == year_len(year as int)) by {
                    reveal_with_fuel(days_before_month, 13);
                }
            }
        }
        if d < md {
            break;
        }
        d = d - md;
        mon = mon + 1;
        i = i + 1;
        proof {
            if d0 >= 0 && i == 13 {
                assert(days_before_month(year as int, 13) == year_len(year as int)) by {
                    reveal_with_fuel(days_before_month, 14);
                }
            }
        }
    }
    (year, mon, (d + 1) as u8)
}

/// The bus phase the controller announces to the device.
#[derive(Debug, Clone, Copy, PartialEq, Eq, Structural)]
pub enum I2cEvent {
    /// Start of a transfer in which the controller reads.
    StartRecv,
    /// Start of a transfer in which the controller writes.
    StartSend,
    /// End of a transfer.
    Finish,
    /// No acknowledge from the controller.
    Nack,
}

/// The DS1338 state.
pub struct Ds1338 {
    /// Time in seconds since 1970-01-01.
    pub offset: i64,
    /// Weekday adjustment written by the guest.
    pub wday_offset: i64,
    /// Time registers (0..=6), control (7) and user RAM (8..=63).
    pub nvram: [u8; 64],
    /// Register pointer.
    pub ptr: i32,
    /// The next byte written is the register pointer.
    pub addr_byte: bool,
    /// Bus address.
    pub i2c_address: u8,
}

/// Seconds, minutes, hours and whole days of `total` seconds, with
/// Rust's truncating division.
pub open spec fn time_fields(total: i64) -> (int, int, int, int) {
    let t = total as int;
    let mins = tdiv(t, 60);
    let hours = tdiv(mins, 60);
    (trem(t, 60), trem(mins, 60), trem(hours, 24), tdiv(hours, 24))
}

/// The register pointer after one access: the next register, wrapping
/// at the end of the register file.
pub open spec fn next_ptr(ptr: i32) -> i32 {
    ((ptr + 1) % 64) as i32
}

impl Ds1338 {
    /// A DS1338 at bus address `address`, time zero, registers clear.
    pub fn new(address: u8) -> (r: Self)
        ensures
            r.offset == 0,
            r.wday_offset == 0,
            r.nvram@ == Seq::new(64, |i: int| 0u8),
            r.ptr == 0,
            !r.addr_byte,
            r.i2c_address == address,
    {
        let r = Ds1338 {
            offset: 0,
            wday_offset: 0,
            nvram: [0u8; 64],
            ptr: 0,
            addr_byte: false,
            i2c_address: address,
        };
        proof {
            assert(r.nvram@ =~= Seq::new(64, |i: int| 0u8));
        }
        r
    }

    /// The bus address.
    pub fn address(&self) -> (r: u8)
        ensures
            r == self.i2c_address,
    {
        self.i2c_address
    }

    /// Set the absolute time in seconds since the epoch.
    pub fn set_time(&mut self, secs: i64)
        ensures
            *final(self) == (Ds1338 { offset: secs, ..*old(self) }),
    {
        self.offset = secs;
    }

    /// The current time in seconds since the epoch.
    pub fn get_offset(&self) -> (r: i64)
        ensures
            r == self.offset,
    {
        self.offset
    }

    /// Latch the current time into the time registers (BCD seconds,
    /// minutes, hours, weekday, day, month, two-digit year).
    pub fn capture_current_time(&mut self)
        ensures
            ({
                let (sec, min, hour, days) = time_fields(old(self).offset);
                let n = final(self).nvram@;
                &&& n.len() == 64
                &&& n[0] == bcd_of(sec as u8)
                &&& n[1] == bcd_of(min as u8)
                &&& n[2] == bcd_of(hour as u8)
                &&& n[3] == (trem(days + 4, 7) as u8).wrapping_add(1)
                &&& forall|i: int| 7 <= i < 64 ==> n[i] == old(self).nvram@[i]
                &&& days >= 0 ==> n[4] == bcd_of(date_of(days).2) && n[5] == bcd_of(date_of(days).1)
                    && n[6] == bcd_of((date_of(days).0 - 2000) as u8)
                &&& final(self).offset == old(self).offset
                &&& final(self).wday_offset == old(self).wday_offset
                &&& final(self).ptr == old(self).ptr
                &&& final(self).addr_byte == old(self).addr_byte
                &&& final(self).i2c_address == old(self).i2c_address
            }),
    {
        let total_secs = self.offset;
        let sec = (total_secs % 60) as u8;
        let total_mins = total_secs / 60;
        let min = (total_mins % 60) as u8;
        let total_hours = total_mins / 60;
        let hour = (total_hours % 24) as u8;
        let total_days = total_hours / 24;
        let wday = (((total_days + 4) % 7) as u8).wrapping_add(1);
        let (year, mon, mday) = days_to_date(total_days);
        proof {
            if total_days >= 0 {
                lemma_date_unique(total_days as int, year as int, mon as int, mday as int);
            }
        }
        self.nvram[0] = to_bcd(sec);
        self.nvram[1] = to_bcd(min);
        self.nvram[2] = to_bcd(hour);
        self.nvram[3] = wday;
        self.nvram[4] = to_bcd(mday);
        self.nvram[5] = to_bcd(mon);
        self.nvram[6] = to_bcd((year - 2000) as u8);
    }

    /// Advance the register pointer, wrapping at the end of the register
    /// file; wrapping to 0 latches the current time.
    pub fn inc_regptr(&mut self)
        requires
            0 <= old(self).ptr < 64,
        ensures
            final(self).ptr == next_ptr(old(self).ptr),
            0 <= final(self).ptr < 64,
            final(self).offset == old(self).offset,
            final(self).wday_offset == old(self).wday_offset,
            final(self).addr_byte == old(self).addr_byte,
            final(self).i2c_address == old(self).i2c_address,
            final(self).ptr != 0 ==> final(self).nvram == old(self).nvram,
    {
        self.ptr = (self.ptr + 1) % 64;
        if self.ptr == 0 {
            self.capture_current_time();
        }
    }

    /// Handle a bus phase: a read transfer latches the current time; a
    /// write transfer expects the register pointer first.
    pub fn event(&mut self, event: I2cEvent)
        ensures
            event == I2cEvent::StartSend ==> *final(self) == (Ds1338 { addr_byte: true, ..*old(self) }),
            event == I2cEvent::StartRecv ==> final(self).addr_byte == old(self).addr_byte
                && final(self).ptr == old(self).ptr && final(self).offset == old(self).offset,
            event != I2cEvent::StartSend && event != I2cEvent::StartRecv ==> *final(self) == *old(self),
    {
        match event {
            I2cEvent::StartRecv => {
                self.capture_current_time();
            },
            I2cEvent::StartSend => {
                self.addr_byte = true;
            },
            _ => {},
        }
    }

    /// Return the register at the pointer and advance the pointer.
    pub fn recv(&mut self) -> (r: u8)
        requires
            0 <= old(self).ptr < 64,
        ensures
            r == old(self).nvram@[old(self).ptr as int],
            final(self).ptr == next_ptr(old(self).ptr),
            0 <= final(self).ptr < 64,
    {
        let res = self.nvram[self.ptr as usize];
        self.inc_regptr();
        res
    }

    /// Handle a byte written by the controller: the first byte of a write
    /// transfer sets the register pointer; later bytes set the time
    /// (registers 0..=6), the control register (7) or user RAM.
    #[verifier::rlimit(40)]
    pub fn send(&mut self, data: u8)
        requires
            0 <= old(self).ptr < 64,
        ensures
            0 <= final(self).ptr < 64,
            old(self).addr_byte ==> *final(self) == (Ds1338 {
                ptr: (data % 64) as i32,
                addr_byte: false,
                ..*old(self)
            }),
            !old(self).addr_byte && old(self).ptr == 7 ==> final(self).ptr == next_ptr(7)
                && final(self).nvram@[7] == ((data & 0x93u8) | (data & old(self).nvram@[7] & CTRL_OSF)),
            !old(self).addr_byte && old(self).ptr > 7 ==> final(self).ptr == next_ptr(old(self).ptr)
                && (final(self).ptr != 0 ==> final(self).nvram@ == old(self).nvram@.update(
                old(self).ptr as int,
                data,
            )),
            !old(self).addr_byte && old(self).ptr < 7 ==> final(self).ptr == next_ptr(old(self).ptr)
                && final(self).offset == time_after_write(old(self).offset, old(self).ptr as int, data),
    {
        if self.addr_byte {
            self.ptr = (data % 64) as i32;
            self.addr_byte = false;
            return;
        }
        let ptr = self.ptr;
        if ptr < 7 {
            let total_secs = self.offset;
            let mut sec = (total_secs % 60) as u8 as i64;
            let total_mins = total_secs / 60;
            let mut min = (total_mins % 60) as u8 as i64;
            let total_hours = total_mins / 60;
            let mut hour = (total_hours % 24) as u8 as i64;
            let mut total_days = total_hours / 24;
            if ptr == 0 {
                sec = from_bcd(data & 0x7F) as i64;
            } else if ptr == 1 {
                min = from_bcd(data & 0x7F) as i64;
            } else if ptr == 2 {
                if data & HOURS_12 != 0 {
                    let mut tmp = from_bcd(data & (HOURS_PM - 1)) as i64;
                    if data & HOURS_PM != 0 {
                        tmp = tmp + 12;
                    }
                    if tmp % 12 == 0 {
                        tmp = tmp - 12;
                    }
                    hour = tmp as u8 as i64;
                } else {
                    hour = from_bcd(data & (HOURS_12 - 1)) as i64;
                }
            } else if ptr == 3 {
                let user_wday = (data & 7) as i64 - 1;
                let cur_wday = (total_days + 4) % 7;
                self.wday_offset = (user_wday - cur_wday + 7) % 7;
            } else if ptr == 4 {
                let mday = from_bcd(data & 0x3F) as i64;
                let old_mday = ((total_days % 31) as u8 as i64) + 1;
                let diff = mday - old_mday;
                total_days = if total_days + diff > 0 {
                    total_days + diff
                } else {
                    0
                };
            } else if ptr == 5 {
                let mon = from_bcd(data & 0x1F) as i64;
                let old_mon = (((total_days / 31) % 12) as u8 as i64) + 1;
                let diff = (mon - old_mon) * 31;
                total_days = if total_days + diff > 0 {
                    total_days + diff
                } else {
                    0
                };
            } else {
                let year = from_bcd(data) as i64 + 2000;
                let old_year = 1970 + total_days / 365;
                let diff = (year - old_year) * 365;
                total_days = if total_days + diff > 0 {
                    total_days + diff
                } else {
                    0
                };
            }
            self.offset = sec.wrapping_add(min.wrapping_mul(60)).wrapping_add(
                hour.wrapping_mul(3600),
            ).wrapping_add(total_days.wrapping_mul(86400));
        } else if ptr == 7 {
            let val = data & 0xB3;
            let old = self.nvram[7];
            self.nvram[7] = (val & !CTRL_OSF) | (val & old & CTRL_OSF);
            proof {
                assert((data & 0xB3u8) & !0x20u8 | ((data & 0xB3u8) & old & 0x20u8) == (data & 0x93u8)
                    | (data & old & 0x20u8)) by (bit_vector);
            }
        } else {
            self.nvram[ptr as usize] = data;
        }
        self.inc_regptr();
    }
}

/// The date of a non-negative day count.
pub open spec fn date_of(days: int) -> (i64, u8, u8) {
    choose|d: (i64, u8, u8)|
        d.0 >= 1970 && 1 <= d.1 <= 12 && 1 <= d.2 <= month_len(d.0 as int, d.1 as int) && days
            == days_before_year(d.0 as int) + days_before_month(d.0 as int, d.1 as int) + d.2 - 1
}

/// The day count determines the calendar date.
proof fn lemma_date_unique(days: int, y: int, m: int, d: int)
    requires
        days >= 0,
        y >= 1970,
        y <= i64::MAX,
        1 <= m <= 12,
        1 <= d <= month_len(y, m),
        days == days_before_year(y) + days_before_month(y, m) + d - 1,
    ensures
        date_of(days) == (y as i64, m as u8, d as u8),
{
    let w = (y as i64, m as u8, d as u8);
    assert(w.0 >= 1970 && 1 <= w.1 <= 12 && 1 <= w.2 <= month_len(w.0 as int, w.1 as int) && days
        == days_before_year(w.0 as int) + days_before_month(w.0 as int, w.1 as int) + w.2 - 1);
    let c = date_of(days);
    lemma_year_of_days(days, y, m, d, c.0 as int, c.1 as int, c.2 as int);
}

proof fn lemma_month_within(y: int, m: int)
    requires
        1 <= m <= 12,
    ensures
        days_before_month(y, m) + month_len(y, m) <= year_len(y),
{
    reveal_with_fuel(days_before_month, 13);
}

proof fn lemma_dbm_nonneg(y: int, m: int)
    ensures
        days_before_month(y, m) >= 0,
    decreases m,
{
    if m > 1 {
        lemma_dbm_nonneg(y, m - 1);
    }
}

proof fn lemma_month_mono(y: int, a: int, b: int)
    requires
        1 <= a < b <= 12,
    ensures
        days_before_month(y, a) + month_len(y, a) <= days_before_month(y, b),
    decreases b - a,
{
    if a + 1 < b {
        lemma_month_mono(y, a, b - 1);
    }
}

proof fn lemma_years_monotone(a: int, b: int)
    requires
        1970 <= a < b,
    ensures
        days_before_year(a) + year_len(a) <= days_before_year(b),
    decreases b - a,
{
    if a + 1 < b {
        lemma_years_monotone(a, b - 1);
    }
}

proof fn lemma_year_of_days(days: int, y: int, m: int, d: int, y2: int, m2: int, d2: int)
    requires
        y >= 1970,
        y2 >= 1970,
        1 <= m <= 12,
        1 <= m2 <= 12,
        1 <= d <= month_len(y, m),
        1 <= d2 <= month_len(y2, m2),
        days == days_before_year(y) + days_before_month(y, m) + d - 1,
        days == days_before_year(y2) + days_before_month(y2, m2) + d2 - 1,
    ensures
        y == y2 && m == m2 && d == d2,
{
    lemma_month_within(y, m);
    lemma_month_within(y2, m2);
    lemma_dbm_nonneg(y, m);
    lemma_dbm_nonneg(y2, m2);
    assert(days < days_before_year(y) + year_len(y));
    assert(days < days_before_year(y2) + year_len(y2));
    if y < y2 {
        lemma_years_monotone(y, y2);
    } else if y2 < y {
        lemma_years_monotone(y2, y);
    }
    assert(y == y2);
    if m < m2 {
        lemma_month_mono(y, m, m2);
    } else if m2 < m {
        lemma_month_mono(y, m2, m);
    }
}

/// The time in seconds after writing `data` to time register `ptr`.
pub open spec fn time_after_write(offset: i64, ptr: int, data: u8) -> i64 {
    let (s, mi, h, days) = time_fields(offset);
    let sec = if ptr == 0 {
        bcd_value(data & 0x7F) as int
    } else {
        (s as u8) as int
    };
    let min = if ptr == 1 {
        bcd_value(data & 0x7F) as int
    } else {
        (mi as u8) as int
    };
    let hour = if ptr == 2 {
        if data & HOURS_12 != 0 {
            let t0 = bcd_value(data & 0x1Fu8) as int + if data & HOURS_PM != 0 {
                12int
            } else {
                0int
            };
            let t = if t0 % 12 == 0 {
                t0 - 12
            } else {
                t0
            };
            (t as u8) as int
        } else {
            bcd_value(data & 0x3Fu8) as int
        }
    } else {
        (h as u8) as int
    };
    let td = if ptr == 4 {
        let diff = bcd_value(data & 0x3F) as int - ((trem(days, 31) as u8) as int + 1);
        if days + diff > 0 {
            days + diff
        } else {
            0
        }
    } else if ptr == 5 {
        let diff = (bcd_value(data & 0x1F) as int - ((trem(tdiv(days, 31), 12) as u8) as int + 1))
            * 31;
        if days + diff > 0 {
            days + diff
        } else {
            0
        }
    } else if ptr == 6 {
        let diff = (bcd_value(data) as int + 2000 - (1970 + tdiv(days, 365))) * 365;
        if days + diff > 0 {
            days + diff
        } else {
            0
        }
    } else {
        days
    };
    (sec as i64).wrapping_add((min as i64).wrapping_mul(60)).wrapping_add(
        (hour as i64).wrapping_mul(3600),
    ).wrapping_add((td as i64).wrapping_mul(86400))
}


/// The hour of day (0..=23) that hours-register byte `data` names: in
/// 12-hour mode (bit 6) a BCD hour 1..=12 in bits 0-4 with the PM flag in
/// bit 5, where 12 AM is hour 0 and 12 PM is hour 12; otherwise a BCD hour
/// in bits 0-5.
pub open spec fn hours_byte_hour(data: u8) -> int {
    if data & 0x40 != 0 {
        let b = (data & 0x0f) as int + 10 * ((data >> 4u8) & 1) as int;
        let pm = data & 0x20 != 0;
        if b == 12 {
            if pm { 12 } else { 0 }
        } else if pm {
            b + 12
        } else {
            b
        }
    } else {
        (data & 0x0f) as int + 10 * ((data >> 4u8) & 3) as int
    }
}

/// Whether `data` is a valid hours-register byte: BCD digits, and an
/// hour 1..=12 in 12-hour mode or 0..=23 in 24-hour mode.
pub open spec fn hours_byte_ok(data: u8) -> bool {
    &&& data & 0x0f <= 9
    &&& data & 0x40 != 0 ==> 1 <= (data & 0x0f) as int + 10 * ((data >> 4u8) & 1) as int <= 12
    &&& data & 0x40 == 0 ==> (data & 0x0f) as int + 10 * ((data >> 4u8) & 3) as int <= 23
}

proof fn lemma_bcd_digits(data: u8)
    requires
        data & 0x0f <= 9,
    ensures
        bcd_value(data & 0x1fu8) == (data & 0x0f) + 10 * ((data >> 4u8) & 1),
        bcd_value(data & 0x3fu8) == (data & 0x0f) + 10 * ((data >> 4u8) & 3),
        bcd_value(data & 0x7fu8) == (data & 0x0f) + 10 * ((data >> 4u8) & 7),
{
    assert(bcd_value(data & 0x1fu8) == (data & 0x0f) + 10 * ((data >> 4u8) & 1) && bcd_value(data & 0x3fu8) == (
    data & 0x0f) + 10 * ((data >> 4u8) & 3) && bcd_value(data & 0x7fu8) == (data & 0x0f) + 10 * ((data >> 4u8)
        & 7)) by (bit_vector)
        requires
            data & 0x0f <= 9,
    ;
}

proof fn lemma_time_fields_of(t: int, s: int, m: int, h: int, d: int)
    requires
        0 <= s < 60,
        0 <= m < 60,
        0 <= h < 24,
        d >= 0,
        t == s + m * 60 + h * 3600 + d * 86400,
        t <= i64::MAX,
    ensures
        time_fields(t as i64) == (s, m, h, d),
{
    let mins = m + h * 60 + d * 1440;
    let hours = h + d * 24;
    vstd::arithmetic::div_mod::lemma_fundamental_div_mod_converse(t, 60, mins, s);
    vstd::arithmetic::div_mod::lemma_fundamental_div_mod_converse(mins, 60, hours, m);
    vstd::arithmetic::div_mod::lemma_fundamental_div_mod_converse(hours, 24, d, h);
}

/// Writing a valid byte to the hours register sets the hour of day to
/// the hour the byte names (1 PM in 12-hour mode is hour 13) and keeps
/// the seconds, the minutes and the day, for times from the epoch that
/// stay a day away from the end of the range.
#[verifier::rlimit(40)]
pub proof fn lemma_hours_write(offset: i64, data: u8)
    requires
        0 <= offset <= i64::MAX - 86400,
        hours_byte_ok(data),
    ensures
        ({
            let t = time_after_write(offset, 2, data);
            let (s, m, h, d) = time_fields(offset);
            &&& t >= 0
            &&& time_fields(t) == (s, m, hours_byte_hour(data), d)
        }),
{
    let o = offset as int;
    let s = o % 60;
    let mins = o / 60;
    let m = mins % 60;
    let hours = mins / 60;
    let h = hours % 24;
    let d = hours / 24;
    assert(time_fields(offset) == (s, m, h, d));
    vstd::arithmetic::div_mod::lemma_fundamental_div_mod(o, 60);
    vstd::arithmetic::div_mod::lemma_fundamental_div_mod(mins, 60);
    vstd::arithmetic::div_mod::lemma_fundamental_div_mod(hours, 24);
    assert(o == s + m * 60 + h * 3600 + d * 86400) by (nonlinear_arith)
        requires
            o == 60 * mins + s,
            mins == 60 * hours + m,
            hours == 24 * d + h,
    ;
    assert(0 <= mins && 0 <= hours && 0 <= d) by (nonlinear_arith)
        requires
            o >= 0,
            mins == o / 60,
            hours == mins / 60,
            d == hours / 24,
    ;
    lemma_bcd_digits(data);
    let hh = hours_byte_hour(data);
    assert(0 <= hh < 24);
    let t = s + m * 60 + hh * 3600 + d * 86400;
    assert(t <= o + 86400) by (nonlinear_arith)
        requires
            o == s + m * 60 + h * 3600 + d * 86400,
            0 <= h,
            0 <= s < 60,
            0 <= m < 60,
            0 <= hh < 24,
            t == s + m * 60 + hh * 3600 + d * 86400,
    ;
    assert(t >= 0) by (nonlinear_arith)
        requires
            0 <= s,
            0 <= m,
            0 <= hh,
            0 <= d,
            t == s + m * 60 + hh * 3600 + d * 86400,
    ;
    assert(d * 86400 <= o) by (nonlinear_arith)
        requires
            o == s + m * 60 + h * 3600 + d * 86400,
            0 <= h,
            0 <= s,
            0 <= m,
    ;
    assert(time_after_write(offset, 2, data) == t as i64);
    lemma_time_fields_of(t, s, m, hh, d);
}


/// The BCD value 0..=59 of a seconds or minutes register byte (bit 7
/// ignored).
pub open spec fn sixty_byte_value(data: u8) -> int {
    (data & 0x0f) as int + 10 * ((data >> 4u8) & 7) as int
}

/// Writing a valid BCD byte to the seconds register (`ptr` 0) or the
/// minutes register (`ptr` 1) sets that field of the time and keeps the
/// other fields and the day, for times from the epoch that stay a day
/// away from the end of the range.
#[verifier::rlimit(40)]
pub proof fn lemma_seconds_minutes_write(offset: i64, ptr: int, data: u8)
    requires
        0 <= offset <= i64::MAX - 86400,
        ptr == 0 || ptr == 1,
        data & 0x0f <= 9,
        sixty_byte_value(data) <= 59,
    ensures
        ({
            let t = time_after_write(offset, ptr, data);
            let (s, m, h, d) = time_fields(offset);
            &&& t >= 0
            &&& time_fields(t) == (if ptr == 0 {
                (sixty_byte_value(data), m, h, d)
            } else {
                (s, sixty_byte_value(data), h, d)
            })
        }),
{
    let o = offset as int;
    let s = o % 60;
    let mins = o / 60;
    let m = mins % 60;
    let hours = mins / 60;
    let h = hours % 24;
    let d = hours / 24;
    assert(time_fields(offset) == (s, m, h, d));
    vstd::arithmetic::div_mod::lemma_fundamental_div_mod(o, 60);
    vstd::arithmetic::div_mod::lemma_fundamental_div_mod(mins, 60);
    vstd::arithmetic::div_mod::lemma_fundamental_div_mod(hours, 24);
    assert(o == s + m * 60 + h * 3600 + d * 86400) by (nonlinear_arith)
        requires
            o == 60 * mins + s,
            mins == 60 * hours + m,
            hours == 24 * d + h,
    ;
    assert(0 <= mins && 0 <= hours && 0 <= d) by (nonlinear_arith)
        requires
            o >= 0,
            mins == o / 60,
            hours == mins / 60,
            d == hours / 24,
    ;
    lemma_bcd_digits(data);
    let v = sixty_byte_value(data);
    let s2 = if ptr == 0 { v } else { s };
    let m2 = if ptr == 1 { v } else { m };
    let t = s2 + m2 * 60 + h * 3600 + d * 86400;
    assert(0 <= t <= o + 86400) by (nonlinear_arith)
        requires
            o == s + m * 60 + h * 3600 + d * 86400,
            0 <= h < 24,
            0 <= s < 60,
            0 <= m < 60,
            0 <= s2 < 60,
            0 <= m2 < 60,
            0 <= d,
            t == s2 + m2 * 60 + h * 3600 + d * 86400,
    ;
    assert(d * 86400 <= o) by (nonlinear_arith)
        requires
            o == s + m * 60 + h * 3600 + d * 86400,
            0 <= h,
            0 <= s,
            0 <= m,
    ;
    if ptr == 0 {
        assert(time_after_write(offset, 0, data) == t as i64);
    } else {
        assert(time_after_write(offset, 1, data) == t as i64);
    }
    lemma_time_fields_of(t, s2, m2, h, d);
}

} // verus!
