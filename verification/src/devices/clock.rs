//! Time keeping: clock times, the real-time clock's calendar time, the
//! system time kept from a clock device, and the time stamp counter's
//! conversion of cycles to nanoseconds.
//!
//! Reading the devices is left to the caller, who hands the readings in.

pub mod hpet;
pub mod pit;
pub mod hardware_timer;

use vstd::prelude::*;

verus! {

pub const NANOS_PER_SEC: u64 = 1_000_000_000;
pub const FEMTOS_PER_SEC: u64 = 1_000_000_000_000_000;
pub const NANOS_PER_FEMTO: u64 = 1_000_000;

/// A time: seconds since a fixed point, and nanoseconds added to them.
#[derive(Debug, Clone, Copy, PartialEq, Eq, Structural)]
pub struct ClockTime {
    pub nanoseconds: u64,
    pub seconds: u64,
}

impl ClockTime {
    /// The time in nanoseconds.
    pub open spec fn nanos(self) -> int {
        self.seconds * 1_000_000_000 + self.nanoseconds
    }

    /// The nanoseconds are below one second.
    pub open spec fn normalized(self) -> bool {
        self.nanoseconds < 1_000_000_000
    }

    /// Ordered by seconds, then by nanoseconds.
    pub open spec fn le(self, other: Self) -> bool {
        self.seconds < other.seconds || (self.seconds == other.seconds && self.nanoseconds
            <= other.nanoseconds)
    }

    pub fn as_nanos(&self) -> (r: u64)
        requires
            self.nanos() <= u64::MAX,
        ensures
            r == self.nanos(),
    {
        proof {
            assert(self.seconds * 1_000_000_000 <= self.nanos()) by (nonlinear_arith)
                requires
                    self.nanos() == self.seconds * 1_000_000_000 + self.nanoseconds,
            ;
        }
        self.seconds * NANOS_PER_SEC + self.nanoseconds
    }

    /// Compares by seconds, then by nanoseconds.
    pub fn cmp(&self, other: &Self) -> (r: core::cmp::Ordering)
        ensures
            (r == core::cmp::Ordering::Less) == (self.le(*other) && *self != *other),
            (r == core::cmp::Ordering::Equal) == (*self == *other),
            (r == core::cmp::Ordering::Greater) == !self.le(*other),
    {
        if self.seconds < other.seconds {
            core::cmp::Ordering::Less
        } else if self.seconds > other.seconds {
            core::cmp::Ordering::Greater
        } else if self.nanoseconds < other.nanoseconds {
            core::cmp::Ordering::Less
        } else if self.nanoseconds > other.nanoseconds {
            core::cmp::Ordering::Greater
        } else {
            core::cmp::Ordering::Equal
        }
    }

    /// The sum of two times, with the nanoseconds carried into seconds.
    pub fn add(self, rhs: Self) -> (r: Self)
        requires
            self.nanoseconds + rhs.nanoseconds <= u64::MAX,
            self.seconds + rhs.seconds + (self.nanoseconds + rhs.nanoseconds) / 1_000_000_000 <= u64::MAX,
        ensures
            r.nanoseconds == (self.nanoseconds + rhs.nanoseconds) % 1_000_000_000,
            r.seconds == self.seconds + rhs.seconds + (self.nanoseconds + rhs.nanoseconds) / 1_000_000_000,
            r.nanos() == self.nanos() + rhs.nanos(),
            r.normalized(),
    {
        let nanoseconds = self.nanoseconds + rhs.nanoseconds;
        let seconds = self.seconds + rhs.seconds + nanoseconds / NANOS_PER_SEC;
        let r = ClockTime { nanoseconds: nanoseconds % NANOS_PER_SEC, seconds };
        proof {
            assert(nanoseconds == (nanoseconds / 1_000_000_000) * 1_000_000_000 + nanoseconds % 1_000_000_000)
                by (nonlinear_arith);
            assert(r.nanos() == self.nanos() + rhs.nanos()) by (nonlinear_arith)
                requires
                    r.nanos() == r.seconds * 1_000_000_000 + r.nanoseconds,
                    r.seconds == self.seconds + rhs.seconds + nanoseconds / 1_000_000_000,
                    r.nanoseconds == nanoseconds % 1_000_000_000,
                    nanoseconds == self.nanoseconds + rhs.nanoseconds,
                    nanoseconds == (nanoseconds / 1_000_000_000) * 1_000_000_000 + nanoseconds % 1_000_000_000,
                    self.nanos() == self.seconds * 1_000_000_000 + self.nanoseconds,
                    rhs.nanos() == rhs.seconds * 1_000_000_000 + rhs.nanoseconds,
            ;
        }
        r
    }

    /// The difference of two normalized times, borrowing a second when the
    /// nanoseconds of `rhs` are larger.
    pub fn sub(self, rhs: Self) -> (r: Self)
        requires
            self.normalized(),
            rhs.normalized(),
            rhs.le(self),
        ensures
            r.normalized(),
            r.nanos() == self.nanos() - rhs.nanos(),
            r.nanoseconds == if self.nanoseconds < rhs.nanoseconds {
                self.nanoseconds + 1_000_000_000 - rhs.nanoseconds
            } else {
                self.nanoseconds - rhs.nanoseconds
            },
    {
        let nanoseconds = if self.nanoseconds < rhs.nanoseconds {
            self.nanoseconds + 1_000_000_000 - rhs.nanoseconds
        } else {
            self.nanoseconds - rhs.nanoseconds
        };
        let seconds = self.seconds - rhs.seconds - if self.nanoseconds < rhs.nanoseconds {
            1
        } else {
            0
        };
        ClockTime { nanoseconds, seconds }
    }
}

/// Adding then subtracting the same normalized time gives back the first.
pub proof fn lemma_add_sub(a: ClockTime, b: ClockTime, s: ClockTime)
    requires
        a.normalized(),
        b.normalized(),
        s.nanoseconds == (a.nanoseconds + b.nanoseconds) % 1_000_000_000,
        s.seconds == a.seconds + b.seconds + (a.nanoseconds + b.nanoseconds) / 1_000_000_000,
    ensures
        s.normalized(),
        b.le(s),
        s.nanos() - b.nanos() == a.nanos(),
{
    assert((a.nanoseconds + b.nanoseconds) % 1_000_000_000 < 1_000_000_000);
    if a.nanoseconds + b.nanoseconds >= 1_000_000_000 {
        assert((a.nanoseconds + b.nanoseconds) / 1_000_000_000 == 1);
        assert((a.nanoseconds + b.nanoseconds) % 1_000_000_000 == a.nanoseconds + b.nanoseconds - 1_000_000_000);
    } else {
        assert((a.nanoseconds + b.nanoseconds) / 1_000_000_000 == 0);
        assert((a.nanoseconds + b.nanoseconds) % 1_000_000_000 == a.nanoseconds + b.nanoseconds);
    }
}

/// Two normalized times with the same nanosecond count are the same time.
pub proof fn lemma_nanos_injective(a: ClockTime, b: ClockTime)
    requires
        a.normalized(),
        b.normalized(),
        a.nanos() == b.nanos(),
    ensures
        a == b,
{
    if a.seconds < b.seconds {
        assert(a.nanos() < b.nanos()) by (nonlinear_arith)
            requires
                a.seconds < b.seconds,
                a.nanoseconds < 1_000_000_000,
                a.nanos() == a.seconds * 1_000_000_000 + a.nanoseconds,
                b.nanos() == b.seconds * 1_000_000_000 + b.nanoseconds,
        ;
    } else if b.seconds < a.seconds {
        assert(b.nanos() < a.nanos()) by (nonlinear_arith)
            requires
                b.seconds < a.seconds,
                b.nanoseconds < 1_000_000_000,
                a.nanos() == a.seconds * 1_000_000_000 + a.nanoseconds,
                b.nanos() == b.seconds * 1_000_000_000 + b.nanoseconds,
        ;
    }
}

/// Subtracting then adding back a normalized time gives back the first:
/// `(a - b) + b == a`.
pub proof fn lemma_sub_add(a: ClockTime, b: ClockTime, d: ClockTime, s: ClockTime)
    requires
        a.normalized(),
        b.normalized(),
        d.normalized(),
        d.nanos() == a.nanos() - b.nanos(),
        s.normalized(),
        s.nanos() == d.nanos() + b.nanos(),
    ensures
        s == a,
{
    lemma_nanos_injective(s, a);
}

// ---------------------------------------------------------------------------
// Calendar time

pub const SECONDS_PER_MINUTE: u64 = 60;
pub const SECONDS_PER_HOUR: u64 = 3600;
pub const SECONDS_PER_DAY: u64 = 86400;
/// Seconds from the start of year 1 to the Unix epoch.
pub const UNIX_EPOCH_IN_SECONDS: u64 = 62135596800;
/// The century assumed when the clock has no century register.
pub const CURRENT_CENTURY: u16 = 20;

/// Days in the months of a common year before each month.
pub open spec fn days_before_month(m: int) -> int {
    if m == 1 {
        0
    } else if m == 2 {
        31
    } else if m == 3 {
        59
    } else if m == 4 {
        90
    } else if m == 5 {
        120
    } else if m == 6 {
        151
    } else if m == 7 {
        181
    } else if m == 8 {
        212
    } else if m == 9 {
        243
    } else if m == 10 {
        273
    } else if m == 11 {
        304
    } else {
        334
    }
}

/// A calendar time as the real-time clock gives it.
#[derive(Debug, Clone, Copy, PartialEq, Eq, Structural)]
pub struct RtcTime {
    pub seconds: u8,
    pub minutes: u8,
    pub hours: u8,
    pub day_of_month: u8,
    pub month: u8,
    pub year: u16,
}

impl RtcTime {
    /// The date is in a leap year and after February.
    pub open spec fn leap_after_february(self) -> bool {
        self.month > 2 && self.year % 4 == 0 && (self.year % 100 != 0 || self.year % 400 == 0)
    }

    /// Seconds from the start of year 1, by the proleptic Gregorian
    /// calendar.
    pub open spec fn seconds_since_year_one(self) -> int {
        let ly = self.year - 1;
        let days = ly * 365 + ly / 4 - ly / 100 + ly / 400 + days_before_month(self.month as int)
            + self.day_of_month - (if self.leap_after_february() {
            0int
        } else {
            1int
        });
        days * 86400 + self.hours * 3600 + self.minutes * 60 + self.seconds
    }

    /// Seconds since 1970-01-01 00:00:00; none for years before 1970.
    pub fn seconds_since_unix_epoch(&self) -> (r: Option<u64>)
        requires
            1 <= self.month <= 12,
            self.year >= 1970 && self.month == 1 ==> self.day_of_month >= 1,
            self.year >= 1970 ==> self.seconds_since_year_one() >= 62135596800,
        ensures
            self.year < 1970 ==> r is None,
            self.year >= 1970 ==> r == Some((self.seconds_since_year_one() - 62135596800) as u64),
    {
        if self.year < 1970 {
            return None;
        }
        let is_year_leap = self.month > 2 && self.year % 4 == 0 && (self.year % 100 != 0 || self.year % 400 == 0);
        let last_year = (self.year - 1) as u64;
        let days_in_last_years = (last_year * 365) + (last_year / 4) - (last_year / 100) + (last_year / 400);
        let before: u64 = match self.month {
            1 => 0,
            2 => 31,
            3 => 59,
            4 => 90,
            5 => 120,
            6 => 151,
            7 => 181,
            8 => 212,
            9 => 243,
            10 => 273,
            11 => 304,
            _ => 334,
        };
        let this_year_days = before + self.day_of_month as u64 - if is_year_leap {
            0
        } else {
            1
        };
        let total_days = days_in_last_years + this_year_days;
        let timestamp = total_days * SECONDS_PER_DAY + self.hours as u64 * SECONDS_PER_HOUR
            + self.minutes as u64 * SECONDS_PER_MINUTE + self.seconds as u64;
        Some(timestamp - UNIX_EPOCH_IN_SECONDS)
    }
}

/// Whether a year is a leap year of the Gregorian calendar.
pub open spec fn is_leap_year(y: int) -> bool {
    y % 4 == 0 && (y % 100 != 0 || y % 400 == 0)
}

/// The number of days of a month: thirty for April, June, September and
/// November, twenty-eight for February (twenty-nine in a leap year),
/// thirty-one for the rest.
pub open spec fn days_in_month(y: int, m: int) -> int {
    if m == 2 {
        if is_leap_year(y) {
            29
        } else {
            28
        }
    } else if m == 4 || m == 6 || m == 9 || m == 11 {
        30
    } else {
        31
    }
}

/// Counting seconds follows the calendar: the next day of a month is one
/// day (86400 seconds) later, the day after the last day of a month is the
/// first day of the next month, and the day after the last of December is
/// the first of January of the next year. With the epoch (1970-01-01 is
/// 62135596800 seconds after the start of year 1) this fixes every date.
pub proof fn lemma_calendar_days(t: RtcTime)
    requires
        1 <= t.month <= 12,
        1 <= t.year < 0xFFFF,
        1 <= t.day_of_month <= days_in_month(t.year as int, t.month as int),
    ensures
        t.day_of_month < days_in_month(t.year as int, t.month as int) ==> (RtcTime {
            day_of_month: (t.day_of_month + 1) as u8,
            ..t
        }).seconds_since_year_one() == t.seconds_since_year_one() + 86400,
        t.day_of_month == days_in_month(t.year as int, t.month as int) && t.month < 12 ==> (RtcTime {
            day_of_month: 1,
            month: (t.month + 1) as u8,
            ..t
        }).seconds_since_year_one() == t.seconds_since_year_one() + 86400,
        t.day_of_month == 31 && t.month == 12 ==> (RtcTime {
            day_of_month: 1,
            month: 1,
            year: (t.year + 1) as u16,
            ..t
        }).seconds_since_year_one() == t.seconds_since_year_one() + 86400,
        (RtcTime { seconds: 0, minutes: 0, hours: 0, day_of_month: 1, month: 1, year: 1970 }).seconds_since_year_one()
            == 62135596800,
{
    let y = t.year as int;
    let ly = y - 1;
    assert(y * 365 + y / 4 - y / 100 + y / 400 == ly * 365 + ly / 4 - ly / 100 + ly / 400 + 365
        + (if is_leap_year(y) { 1int } else { 0int }));
}

/// The value of a binary-coded decimal byte.
pub open spec fn from_bcd(x: u8) -> u8 {
    ((x & 0x0f) + (x / 16) * 10) as u8
}

/// A binary-coded decimal byte holds the tens digit in its high four bits
/// and the units digit in its low four: the byte of digits `t` and `u`
/// reads as `10 * t + u`.
pub proof fn lemma_bcd_digits(t: u8, u: u8)
    requires
        t <= 9,
        u <= 9,
    ensures
        from_bcd((t * 16 + u) as u8) == t * 10 + u,
{
    let x = (t * 16 + u) as u8;
    assert(x & 0x0f == u && x / 16 == t) by (bit_vector)
        requires
            t <= 9,
            u <= 9,
            x == (t * 16 + u) as u8,
    ;
}

fn bcd_to_binary(x: u8) -> (r: u8)
    ensures
        r == from_bcd(x),
{
    proof {
        crate::bits::lemma_u8(x);
    }
    (x & 0x0f) + (x / 16) * 10
}

/// The real-time clock, with the register that holds the century, if any.
#[derive(Debug, Clone, Copy, PartialEq, Eq, Structural)]
pub struct Rtc {
    pub century_reg: Option<u8>,
}

/// The hours register decoded from binary-coded decimal, keeping bit 7.
pub open spec fn bcd_hours(h: u8) -> u8 {
    (((h & 0x0f) + ((h & 0x70) / 16) * 10) as u8) | (h & 0x80)
}

/// The hours after decoding: bit 7 marks a time after noon on a twelve-hour
/// clock.
pub open spec fn hours_value(h: u8) -> u8 {
    if h & 0x80 != 0 {
        (((h & 0x7f) + 12) % 24) as u8
    } else {
        h
    }
}

impl Rtc {
    /// A clock with the given century register; register zero means none.
    pub fn new(century_reg: Option<u8>) -> (r: Self)
        ensures
            r.century_reg == match century_reg {
                Some(0) => None,
                other => other,
            },
    {
        let century_reg = match century_reg {
            Some(reg) => {
                if reg == 0 {
                    None
                } else {
                    Some(reg)
                }
            },
            None => None,
        };
        Rtc { century_reg }
    }

    /// Whether the values are binary-coded decimals, by status register B.
    pub fn is_bcd(&self, status_b: u8) -> (r: bool)
        ensures
            r == (status_b & 0x04 == 0),
    {
        status_b & 0x04 == 0
    }

    /// The time from the raw register values: the year register in `raw.year`,
    /// the century register (when there is one) in `raw_century`, and status
    /// register B, which says whether they are binary-coded decimals.
    pub fn get_time(&self, raw: RtcTime, raw_century: u8, status_b: u8) -> (r: RtcTime)
        requires
            raw.year <= 0xff,
        ensures
            ({
                let bcd = status_b & 0x04 == 0;
                let hours = if bcd {
                    bcd_hours(raw.hours)
                } else {
                    raw.hours
                };
                let century: u16 = if self.century_reg is Some {
                    (if bcd { from_bcd(raw_century) } else { raw_century }) as u16
                } else {
                    20
                };
                let year: u16 = if bcd { from_bcd(raw.year as u8) as u16 } else { raw.year };
                &&& r.seconds == if bcd { from_bcd(raw.seconds) } else { raw.seconds }
                &&& r.minutes == if bcd { from_bcd(raw.minutes) } else { raw.minutes }
                &&& r.day_of_month == if bcd { from_bcd(raw.day_of_month) } else { raw.day_of_month }
                &&& r.month == if bcd { from_bcd(raw.month) } else { raw.month }
                &&& r.hours == hours_value(hours)
                &&& r.year == year + century * 100
            }),
    {
        let mut t = raw;
        let mut century = raw_century;
        if self.is_bcd(status_b) {
            t.seconds = bcd_to_binary(t.seconds);
            t.minutes = bcd_to_binary(t.minutes);
            let h = t.hours;
            proof {
                crate::bits::lemma_u8(h);
            }
            t.hours = ((h & 0x0f) + ((h & 0x70) / 16) * 10) | (h & 0x80);
            t.day_of_month = bcd_to_binary(t.day_of_month);
            t.month = bcd_to_binary(t.month);
            t.year = bcd_to_binary(t.year as u8) as u16;
            if self.century_reg.is_some() {
                century = bcd_to_binary(century);
            }
        }
        if t.hours & 0x80 != 0 {
            let h = t.hours;
            proof {
                crate::bits::lemma_u8(h);
            }
            t.hours = ((t.hours & 0x7f) + 12) % 24;
        }
        let century: u16 = if self.century_reg.is_some() {
            century as u16
        } else {
            CURRENT_CENTURY
        };
        t.year = t.year + century * 100;
        t
    }
}

// ---------------------------------------------------------------------------
// System time

/// The system time: the Unix time at startup, the time since startup, and
/// the last reading of the clock device it follows (if it has one).
#[derive(Debug, Clone, Copy)]
pub struct SystemTime {
    pub start_unix: ClockTime,
    pub last_tick: ClockTime,
    pub startup_offset: ClockTime,
    pub has_device: bool,
}

impl SystemTime {
    pub open spec fn wf(self) -> bool {
        self.start_unix.normalized() && self.last_tick.normalized() && self.startup_offset.normalized()
    }

    pub open spec fn new_spec(start_seconds: u64) -> Self {
        SystemTime {
            start_unix: ClockTime { nanoseconds: 0, seconds: start_seconds },
            last_tick: ClockTime { nanoseconds: 0, seconds: 0 },
            startup_offset: ClockTime { nanoseconds: 0, seconds: 0 },
            has_device: false,
        }
    }

    /// Starts at the given Unix time, with no device.
    pub fn new(start_seconds: u64) -> (r: Self)
        ensures
            r == Self::new_spec(start_seconds),
            r.wf(),
            r.start_unix == (ClockTime { nanoseconds: 0, seconds: start_seconds }),
            r.startup_offset == (ClockTime { nanoseconds: 0, seconds: 0 }),
            r.last_tick == (ClockTime { nanoseconds: 0, seconds: 0 }),
            !r.has_device,
    {
        SystemTime {
            start_unix: ClockTime { nanoseconds: 0, seconds: start_seconds },
            last_tick: ClockTime { nanoseconds: 0, seconds: 0 },
            startup_offset: ClockTime { nanoseconds: 0, seconds: 0 },
            has_device: false,
        }
    }

    /// Advances by the time the device counted since the last tick; with no
    /// device nothing changes.
    pub fn tick(&mut self, device_time: ClockTime)
        requires
            old(self).wf(),
            device_time.normalized(),
            old(self).has_device ==> old(self).last_tick.le(device_time),
            old(self).has_device ==> old(self).startup_offset.nanos() + device_time.nanos() - old(self).last_tick.nanos()
                < 0x1_0000_0000 * 1_000_000_000,
        ensures
            final(self).wf(),
            !old(self).has_device ==> *final(self) == *old(self),
            old(self).has_device ==> final(self).startup_offset.nanos() == old(self).startup_offset.nanos()
                + device_time.nanos() - old(self).last_tick.nanos() && final(self).last_tick == device_time
                && final(self).start_unix == old(self).start_unix && final(self).has_device,
    {
        if self.has_device {
            let diff = device_time.sub(self.last_tick);
            proof {
                assert(self.startup_offset.seconds * 1_000_000_000 <= self.startup_offset.nanos());
                assert(diff.seconds * 1_000_000_000 <= diff.nanos());
                assert(self.startup_offset.seconds + diff.seconds + 1 <= u64::MAX) by (nonlinear_arith)
                    requires
                        self.startup_offset.seconds * 1_000_000_000 + diff.seconds * 1_000_000_000
                            < 0x1_0000_0000 * 1_000_000_000,
                ;
            }
            self.startup_offset = self.startup_offset.add(diff);
            self.last_tick = device_time;
        }
    }

    /// Follows a new device: the time counted by the old device since the
    /// last tick is added, then the new device's reading becomes the last
    /// tick. When there was no device, the time restarts at the given Unix
    /// time instead.
    pub fn update_device(&mut self, current_device_time: ClockTime, new_device_time: ClockTime, unix_seconds: u64)
        requires
            old(self).wf(),
            current_device_time.normalized(),
            new_device_time.normalized(),
            old(self).has_device ==> old(self).last_tick.le(current_device_time),
            old(self).has_device ==> old(self).startup_offset.nanos() + current_device_time.nanos()
                - old(self).last_tick.nanos() < 0x1_0000_0000 * 1_000_000_000,
        ensures
            final(self).wf(),
            final(self).has_device,
            final(self).last_tick == new_device_time,
            old(self).has_device ==> final(self).startup_offset.nanos() == old(self).startup_offset.nanos()
                + current_device_time.nanos() - old(self).last_tick.nanos() && final(self).start_unix
                == old(self).start_unix,
            !old(self).has_device ==> final(self).startup_offset == (ClockTime { nanoseconds: 0, seconds: 0 })
                && final(self).start_unix == (ClockTime { nanoseconds: 0, seconds: unix_seconds }),
    {
        if self.has_device {
            self.tick(current_device_time);
        } else {
            self.startup_offset = ClockTime { nanoseconds: 0, seconds: 0 };
            self.start_unix = ClockTime { nanoseconds: 0, seconds: unix_seconds };
            self.has_device = true;
        }
        self.last_tick = new_device_time;
    }

    pub fn time_since_startup(&self) -> (r: ClockTime)
        ensures
            r == self.startup_offset,
    {
        self.startup_offset
    }

    pub fn time_since_unix_epoch(&self) -> (r: ClockTime)
        requires
            self.start_unix.nanoseconds + self.startup_offset.nanoseconds <= u64::MAX,
            self.start_unix.seconds + self.startup_offset.seconds + (self.start_unix.nanoseconds
                + self.startup_offset.nanoseconds) / 1_000_000_000 <= u64::MAX,
        ensures
            r.nanos() == self.start_unix.nanos() + self.startup_offset.nanos(),
            r.normalized(),
    {
        self.start_unix.add(self.startup_offset)
    }
}

// ---------------------------------------------------------------------------
// Clock devices

/// What the clock keeps of a device: an identifier chosen by the caller,
/// its rating (higher is better), and whether it needs calibration.
#[derive(Debug, Clone, Copy, PartialEq, Eq, Structural)]
pub struct ClockDeviceInfo {
    pub id: u64,
    pub rating: u64,
    pub require_calibration: bool,
}

/// The devices are ordered from the best rating down.
pub open spec fn sorted_by_rating(d: Seq<ClockDeviceInfo>) -> bool {
    forall|i: int, j: int| 0 <= i < j < d.len() ==> #[trigger] d[i].rating >= #[trigger] d[j].rating
}

/// Where a device of rating `rating` goes: before the first one rated lower.
pub open spec fn insert_position(d: Seq<ClockDeviceInfo>, rating: u64, i: int) -> int
    decreases d.len() - i,
{
    if i < 0 || i >= d.len() {
        d.len() as int
    } else if d[i].rating < rating {
        i
    } else {
        insert_position(d, rating, i + 1)
    }
}

/// The first device that needs no calibration, from `i` on.
pub open spec fn first_calibrated(d: Seq<ClockDeviceInfo>, i: int) -> Option<ClockDeviceInfo>
    decreases d.len() - i,
{
    if i < 0 || i >= d.len() {
        None
    } else if !d[i].require_calibration {
        Some(d[i])
    } else {
        first_calibrated(d, i + 1)
    }
}

proof fn lemma_insert_position(d: Seq<ClockDeviceInfo>, rating: u64, i: int)
    requires
        0 <= i <= d.len(),
    ensures
        i <= insert_position(d, rating, i) <= d.len(),
        forall|k: int| i <= k < insert_position(d, rating, i) ==> #[trigger] d[k].rating >= rating,
        insert_position(d, rating, i) < d.len() ==> d[insert_position(d, rating, i)].rating < rating,
    decreases d.len() - i,
{
    if i < d.len() && d[i].rating >= rating {
        lemma_insert_position(d, rating, i + 1);
    }
}

/// The clock devices, best first, and the system time kept from the best.
pub struct Clock {
    pub devices: Vec<ClockDeviceInfo>,
    /// The device the system time follows.
    pub current: Option<u64>,
    pub system_time: SystemTime,
}

impl Clock {
    pub open spec fn wf(&self) -> bool {
        sorted_by_rating(self.devices@) && self.system_time.wf()
    }

    /// No devices yet; the system time starts at the given Unix time.
    pub fn new(start_seconds: u64) -> (r: Self)
        ensures
            r.wf(),
            r.devices@.len() == 0,
            r.current is None,
            r.system_time == SystemTime::new_spec(start_seconds),
    {
        Clock { devices: Vec::new(), current: None, system_time: SystemTime::new(start_seconds) }
    }

    /// Adds a device in rating order, after those rated the same or better.
    /// Returns the best device where the system time must move over to it.
    pub fn add_device(&mut self, device: ClockDeviceInfo) -> (r: Option<ClockDeviceInfo>)
        requires
            old(self).wf(),
        ensures
            final(self).wf(),
            final(self).devices@ == old(self).devices@.insert(
                insert_position(old(self).devices@, device.rating, 0),
                device,
            ),
            final(self).system_time == old(self).system_time,
            final(self).current == Some(final(self).devices@[0].id),
            r == if old(self).current == Some(final(self).devices@[0].id) {
                None
            } else {
                Some(final(self).devices@[0])
            },
    {
        let ghost d = self.devices@;
        proof {
            lemma_insert_position(d, device.rating, 0);
        }
        let mut i: usize = 0;
        while i < self.devices.len() && self.devices[i].rating >= device.rating
            invariant
                self.devices@ == d,
                i <= d.len(),
                insert_position(d, device.rating, 0) == insert_position(d, device.rating, i as int),
            decreases d.len() - i,
        {
            i = i + 1;
        }
        self.devices.insert(i, device);
        proof {
            let p = i as int;
            let n = self.devices@;
            assert(p == insert_position(d, device.rating, 0));
            assert forall|a: int, b: int| 0 <= a < b < n.len() implies #[trigger] n[a].rating >= #[trigger] n[b].rating by {
                if a < p && b < p {
                    assert(n[a] == d[a] && n[b] == d[b]);
                } else if a < p && b == p {
                    assert(n[a] == d[a]);
                } else if a < p {
                    assert(n[a] == d[a] && n[b] == d[b - 1]);
                } else if a == p {
                    assert(n[b] == d[b - 1]);
                    assert(d[p].rating < device.rating);
                    assert(d[p].rating >= d[b - 1].rating || b - 1 == p);
                } else {
                    assert(n[a] == d[a - 1] && n[b] == d[b - 1]);
                }
            }
        }
        let best = self.devices[0];
        let switch = match self.current {
            Some(id) => id != best.id,
            None => true,
        };
        self.current = Some(best.id);
        if switch {
            Some(best)
        } else {
            None
        }
    }

    /// The best device, if any.
    pub fn get_best_clock(&self) -> (r: Option<ClockDeviceInfo>)
        ensures
            r == if self.devices@.len() > 0 {
                Some(self.devices@[0])
            } else {
                None
            },
    {
        if self.devices.len() > 0 {
            Some(self.devices[0])
        } else {
            None
        }
    }

    /// The best device that needs no calibration, to calibrate others with.
    pub fn get_best_for_calibration(&self) -> (r: Option<ClockDeviceInfo>)
        ensures
            r == first_calibrated(self.devices@, 0),
    {
        let mut i: usize = 0;
        while i < self.devices.len()
            invariant
                i <= self.devices@.len(),
                first_calibrated(self.devices@, 0) == first_calibrated(self.devices@, i as int),
            decreases self.devices@.len() - i,
        {
            if !self.devices[i].require_calibration {
                return Some(self.devices[i]);
            }
            i = i + 1;
        }
        None
    }

    /// Advances the system time to the followed device's reading.
    pub fn tick_system_time(&mut self, device_time: ClockTime)
        requires
            old(self).system_time.wf(),
            device_time.normalized(),
            old(self).system_time.has_device ==> old(self).system_time.last_tick.le(device_time),
            old(self).system_time.has_device ==> old(self).system_time.startup_offset.nanos()
                + device_time.nanos() - old(self).system_time.last_tick.nanos() < 0x1_0000_0000
                * 1_000_000_000,
        ensures
            final(self).devices@ == old(self).devices@,
            final(self).current == old(self).current,
            final(self).system_time.wf(),
            !old(self).system_time.has_device ==> final(self).system_time == old(self).system_time,
            old(self).system_time.has_device ==> final(self).system_time.startup_offset.nanos()
                == old(self).system_time.startup_offset.nanos() + device_time.nanos()
                - old(self).system_time.last_tick.nanos() && final(self).system_time.last_tick
                == device_time && final(self).system_time.start_unix == old(self).system_time.start_unix,
    {
        self.system_time.tick(device_time);
    }
}

// ---------------------------------------------------------------------------
// Time stamp counter

/// Nanoseconds for a number of cycles, with the nanoseconds per cycle
/// scaled by `2^64`.
pub fn cycles_to_ns(cycles: u64, nanos_per_cycle_scaled: u64) -> (r: u64)
    ensures
        r == (cycles as int * nanos_per_cycle_scaled as int) / 0x1_0000_0000_0000_0000,
{
    proof {
        assert((cycles as int) * (nanos_per_cycle_scaled as int) <= 0xffff_ffff_ffff_ffff * 0xffff_ffff_ffff_ffff)
            by (nonlinear_arith);
    }
    let product = (cycles as u128) * (nanos_per_cycle_scaled as u128);
    proof {
        crate::bits::lemma_u128(product, 0);
    }
    (product >> 64u128) as u64
}

/// A moment seen both by a clock device (in nanoseconds) and by the
/// counter (in cycles).
#[derive(Debug, Clone, Copy, PartialEq, Eq, Structural)]
pub struct SyncPoint {
    pub nanos: u64,
    pub cycles: u64,
}

/// The time stamp counter as a clock: the nanoseconds at cycle zero (which
/// may wrap) and the nanoseconds per cycle, scaled by `2^64`.
#[derive(Debug, Clone, Copy)]
pub struct Tsc {
    pub start_time: u64,
    pub nanos_per_cycle_scaled: u64,
    pub rd_tsc_call_latency: u64,
}

impl Tsc {
    /// How long to wait between the two points of a calibration: a
    /// thousand granules of the base clock, at least a millisecond and at
    /// most a second.
    pub fn calibration_sleep_time(granularity: u64) -> (r: u64)
        requires
            granularity > 0,
            granularity * 1000 <= u64::MAX,
        ensures
            r == if granularity * 1000 < 1_000_000 {
                1_000_000
            } else if granularity * 1000 > 1_000_000_000 {
                1_000_000_000
            } else {
                granularity * 1000
            },
    {
        let t = granularity * 1000;
        if t < 1_000_000 {
            1_000_000
        } else if t > NANOS_PER_SEC {
            NANOS_PER_SEC
        } else {
            t
        }
    }

    /// Sets the rate from two points: the nanoseconds per cycle between
    /// them, scaled by `2^64`; and the start so that the first point's
    /// cycles give its nanoseconds.
    pub fn calibrate(&mut self, start_point: SyncPoint, end_point: SyncPoint)
        requires
            start_point.nanos <= end_point.nanos,
            start_point.cycles < end_point.cycles,
            end_point.nanos - start_point.nanos < end_point.cycles - start_point.cycles,
        ensures
            final(self).nanos_per_cycle_scaled == ((end_point.nanos - start_point.nanos) as int
                * 0x1_0000_0000_0000_0000) / ((end_point.cycles - start_point.cycles) as int),
            final(self).start_time == (start_point.nanos as int - (start_point.cycles as int
                * final(self).nanos_per_cycle_scaled as int) / 0x1_0000_0000_0000_0000) % 0x1_0000_0000_0000_0000,
            final(self).rd_tsc_call_latency == old(self).rd_tsc_call_latency,
    {
        let ns_diff = end_point.nanos - start_point.nanos;
        let cycles_diff = end_point.cycles - start_point.cycles;
        let shifted = (ns_diff as u128) << 64u128;
        proof {
            crate::bits::lemma_u128(shifted, ns_diff);
        }
        let scaled = shifted / (cycles_diff as u128);
        proof {
            assert(scaled < 0x1_0000_0000_0000_0000) by (nonlinear_arith)
                requires
                    scaled == (ns_diff * 0x1_0000_0000_0000_0000) / (cycles_diff as int),
                    ns_diff < cycles_diff,
                    cycles_diff > 0,
            ;
        }
        let scaled = scaled as u64;
        let start_ns = start_point.nanos.wrapping_sub(cycles_to_ns(start_point.cycles, scaled));
        self.start_time = start_ns;
        self.nanos_per_cycle_scaled = scaled;
    }

    /// Nanoseconds since the start for a counter value (wrapping).
    pub fn time_nanos_since_start(&self, cycles: u64) -> (r: u64)
        ensures
            r == (self.start_time as int + (cycles as int * self.nanos_per_cycle_scaled as int)
                / 0x1_0000_0000_0000_0000) % 0x1_0000_0000_0000_0000,
    {
        self.start_time.wrapping_add(cycles_to_ns(cycles, self.nanos_per_cycle_scaled))
    }

    /// The time for a counter value.
    pub fn get_time(&self, cycles: u64) -> (r: ClockTime)
        ensures
            r.normalized(),
            r.nanos() == (self.start_time as int + (cycles as int * self.nanos_per_cycle_scaled as int)
                / 0x1_0000_0000_0000_0000) % 0x1_0000_0000_0000_0000,
    {
        let nanos = self.time_nanos_since_start(cycles);
        let r = ClockTime { seconds: nanos / NANOS_PER_SEC, nanoseconds: nanos % NANOS_PER_SEC };
        assert(nanos == (nanos / 1_000_000_000) * 1_000_000_000 + nanos % 1_000_000_000) by (nonlinear_arith);
        r
    }

    /// The smallest time step: the nanoseconds of one cycle, at least one.
    pub fn granularity(&self) -> (r: u64)
        ensures
            r == if self.nanos_per_cycle_scaled as int / 0x1_0000_0000_0000_0000 > 0 {
                self.nanos_per_cycle_scaled as int / 0x1_0000_0000_0000_0000
            } else {
                1
            },
    {
        let n = cycles_to_ns(1, self.nanos_per_cycle_scaled);
        if n > 0 {
            n
        } else {
            1
        }
    }
}

} // verus!
