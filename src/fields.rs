//! Small fixed-width header fields: flag words, the compression method tag and
//! the MS-DOS timestamp.

use crate::encode::{BinCount, BinaryEncode};
use crate::error::ZipError;
use crate::le::{le16, push_u16};
use chrono::{Datelike, Timelike};
use vstd::prelude::*;

verus! {

broadcast use crate::le::group_le_lengths;

/// The general-purpose bit flag of a local or central header.
#[derive(Clone, Copy, Debug, Default, PartialEq, Eq, Structural)]
pub struct GeneralPurposeFlag(pub u16);

impl GeneralPurposeFlag {
    pub const ENCRYPTED: u16 = 0x0001;
    pub const COMPRESSION1: u16 = 0x0002;
    pub const COMPRESSION2: u16 = 0x0004;
    pub const DATA_DESCRIPTOR: u16 = 0x0008;
    pub const PATCH_DATA: u16 = 0x0020;
    pub const STRONG_ENCRYPTION: u16 = 0x0040;
    pub const LANGUAGE_ENCODING: u16 = 0x0800;
    pub const ENCRYPTED_CENTRAL_DIRECTORY: u16 = 0x2000;

    pub fn bits(&self) -> (r: u16)
        ensures
            r == self.0,
    {
        self.0
    }

    /// Sets every bit of `mask`.
    pub fn insert(&mut self, mask: u16)
        ensures
            final(self).0 == old(self).0 | mask,
    {
        self.0 = self.0 | mask;
    }

    /// Flips every bit of `mask`.
    pub fn toggle(&mut self, mask: u16)
        ensures
            final(self).0 == old(self).0 ^ mask,
    {
        self.0 = self.0 ^ mask;
    }

    pub fn contains(&self, mask: u16) -> (r: bool)
        ensures
            r == (self.0 & mask == mask),
    {
        self.0 & mask == mask
    }
}

/// The 2-byte compression method tag. The associated constants are the tag
/// values of the methods the format names.
#[derive(Clone, Copy, Debug, Default, PartialEq, Eq, Structural)]
pub struct CompressionMethod(pub u16);

impl CompressionMethod {
    pub const STORED: u16 = 0;
    pub const SHRUNK: u16 = 1;
    pub const REDUCED1: u16 = 2;
    pub const REDUCED2: u16 = 3;
    pub const REDUCED3: u16 = 4;
    pub const REDUCED4: u16 = 5;
    pub const IMPLODED: u16 = 6;
    pub const DEFLATED: u16 = 8;
    pub const DEFLATE64: u16 = 9;
    pub const BZIP2: u16 = 12;
    pub const LZMA: u16 = 14;
    pub const ZSTD: u16 = 93;
    pub const MP3: u16 = 94;
    pub const XZ: u16 = 95;
    pub const JPEG: u16 = 96;
}

/// The internal file attributes of a central header.
#[derive(Clone, Copy, Debug, Default, PartialEq, Eq, Structural)]
pub struct InternalFileAttributes(pub u16);

impl InternalFileAttributes {
    pub const TEXT_FILE: u16 = 0x0001;
    pub const RECORD_LENGTH_CONTROL: u16 = 0x0004;

    /// Flips every bit of `mask`.
    pub fn toggle(&mut self, mask: u16)
        ensures
            final(self).0 == old(self).0 ^ mask,
    {
        self.0 = self.0 ^ mask;
    }
}

/// An MS-DOS time and date pair, as the headers store it.
#[derive(Clone, Copy, Debug, PartialEq, Eq, Structural)]
pub struct DosDateTime {
    pub time: u16,
    pub date: u16,
}

/// The date word of a DOS timestamp: seven bits of years since 1980, four of
/// month, five of day (the year wraps modulo 128 as the 7-bit field does).
pub open spec fn dos_date(year: int, month: int, day: int) -> u16 {
    (((year - 1980) % 128) * 512 + month * 32 + day) as u16
}

/// The time word of a DOS timestamp: hour, minute and two-second units.
pub open spec fn dos_time(hour: int, minute: int, second: int) -> u16 {
    (hour * 2048 + minute * 32 + second / 2) as u16
}

impl DosDateTime {
    pub fn new(time: u16, date: u16) -> (r: Self)
        ensures
            r.time == time,
            r.date == date,
    {
        DosDateTime { time, date }
    }

    /// The DOS timestamp of a civil date and time of day.
    pub fn from_civil(year: i32, month: u32, day: u32, hour: u32, minute: u32, second: u32) -> (r: Self)
        requires
            -300000 <= year <= 300000,
            1 <= month <= 12,
            1 <= day <= 31,
            hour < 24,
            minute < 60,
            second < 61,
        ensures
            r.date == dos_date(year as int, month as int, day as int),
            r.time == dos_time(hour as int, minute as int, second as int),
    {
        let years: u32 = if year >= 1980 {
            ((year - 1980) % 128) as u32
        } else {
            let back: i32 = (1979 - year) % 128;
            proof {
                let d = year as int - 1980;
                let b = 1979 - year as int;
                assert(b >= 0);
                assert(d == -1 - b);
                assert((d % 128) == 127 - (b % 128)) by (nonlinear_arith)
                    requires d == -1 - b, b >= 0;
            }
            (127 - back) as u32
        };
        let date: u16 = (years * 512 + month * 32 + day) as u16;
        let time: u16 = (hour * 2048 + minute * 32 + second / 2) as u16;
        DosDateTime { time, date }
    }
}

/// Relies on `std::time::SystemTime::now` and `duration_since(UNIX_EPOCH)`:
/// whole seconds since the Unix epoch, or `None` for a clock set before it.
#[verifier::external_body]
fn unix_seconds_now() -> (r: Option<u64>) {
    std::time::SystemTime::now().duration_since(std::time::UNIX_EPOCH).ok().map(|d| d.as_secs())
}

/// Relies on `chrono::DateTime::from_timestamp` and its `Datelike` /
/// `Timelike` accessors: the UTC year, month (1 to 12), day (1 to 31), hour
/// (0 to 23), minute (0 to 59) and second (0 to 59) of `secs` seconds after
/// the Unix epoch, the year within chrono's supported range; `None` past
/// that range.
#[verifier::external_body]
fn civil_from_unix(secs: i64) -> (r: Option<(i32, u32, u32, u32, u32, u32)>)
    ensures
        r matches Some(t) ==> -262143 <= t.0 <= 262142 && 1 <= t.1 <= 12 && 1 <= t.2 <= 31 && t.3 < 24
            && t.4 < 60 && t.5 < 60,
{
    let t = chrono::DateTime::from_timestamp(secs, 0)?;
    Some((t.year(), t.month(), t.day(), t.hour(), t.minute(), t.second()))
}

impl DosDateTime {
    /// The DOS timestamp of the current UTC time; all zero where the clock
    /// cannot be read as a date.
    pub fn now() -> (r: Self) {
        let secs = match unix_seconds_now() {
            Some(s) => s,
            None => return DosDateTime { time: 0, date: 0 },
        };
        if secs > i64::MAX as u64 {
            return DosDateTime { time: 0, date: 0 };
        }
        match civil_from_unix(secs as i64) {
            Some((year, month, day, hour, minute, second)) => DosDateTime::from_civil(year, month, day, hour, minute, second),
            None => DosDateTime { time: 0, date: 0 },
        }
    }
}

impl BinaryEncode for DosDateTime {
    open spec fn encoding(&self) -> Seq<u8> {
        le16(self.time) + le16(self.date)
    }

    fn write(&self, out: &mut Vec<u8>) {
        push_u16(out, self.time);
        push_u16(out, self.date);
    }
}

impl BinCount for DosDateTime {
    fn byte_count(&self) -> (r: Result<usize, ZipError>) {
        Ok(4)
    }
}

} // verus!
