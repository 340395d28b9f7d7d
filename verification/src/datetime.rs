//! The two on-disc date-time shapes of ISO 9660: the 7-byte binary form used
//! by directory records and Rock Ridge `TF` entries, and the 17-byte ASCII
//! form used by volume descriptors.  Both are kept as plain calendar fields;
//! a verified conversion to seconds since the Unix epoch is provided.

use vstd::prelude::*;

use crate::error::ISOError;

verus! {

/// A calendar date and time with a timezone offset in quarter hours from
/// GMT, as recorded by a directory record (ISO 9660 § 9.1.5) or a Rock Ridge
/// `TF` timestamp.
#[derive(Clone, Copy, Debug, PartialEq, Eq, Structural)]
pub struct IsoDateTime {
    /// Full year (the on-disc byte stores `year - 1900`).
    pub year: u16,
    /// Month of the year, 1 to 12 on a well-formed volume.
    pub month: u8,
    /// Day of the month, 1 to 31 on a well-formed volume.
    pub day: u8,
    /// Hour, 0 to 23.
    pub hour: u8,
    /// Minute, 0 to 59.
    pub minute: u8,
    /// Second, 0 to 59.
    pub second: u8,
    /// Offset from GMT in 15-minute intervals, -48 to +52.
    pub gmt_offset: i8,
}

/// The signed interpretation of a timezone byte.
pub open spec fn signed_of_byte(b: u8) -> i8 {
    if b < 0x80 {
        b as i8
    } else {
        (b - 0x100) as i8
    }
}

/// The date-time encoded by the 7 bytes at `off`.
pub open spec fn iso_date_time_at(d: Seq<u8>, off: int) -> IsoDateTime
    recommends
        0 <= off,
        off + 7 <= d.len(),
{
    IsoDateTime {
        year: (d[off] + 1900) as u16,
        month: d[off + 1],
        day: d[off + 2],
        hour: d[off + 3],
        minute: d[off + 4],
        second: d[off + 5],
        gmt_offset: signed_of_byte(d[off + 6]),
    }
}

/// Parses the 7-byte directory-record date-time at `off`.
pub fn parse_iso_date_time(d: &[u8], off: usize) -> (r: IsoDateTime)
    requires
        off + 7 <= d@.len(),
    ensures
        r == iso_date_time_at(d@, off as int),
{
    let len = d.len();
    assert(off + 7 <= len);
    let tz = d[off + 6];
    let gmt_offset: i8 = if tz < 0x80 {
        tz as i8
    } else {
        (tz as i16 - 0x100) as i8
    };
    IsoDateTime {
        year: d[off] as u16 + 1900,
        month: d[off + 1],
        day: d[off + 2],
        hour: d[off + 3],
        minute: d[off + 4],
        second: d[off + 5],
        gmt_offset,
    }
}

/// A volume-descriptor date and time (ISO 9660 § 8.4.26): ASCII
/// `YYYYMMDDHHMMSShh` plus a timezone byte.  An unset field (all zeros or
/// all spaces) is represented by the all-zero placeholder.
#[derive(Clone, Copy, Debug, PartialEq, Eq, Structural)]
pub struct VolumeDateTime {
    /// Full year, 0 to 9999; 0 on an unset timestamp.
    pub year: u16,
    /// Month of the year, 1 to 12 on a set timestamp.
    pub month: u8,
    /// Day of the month.
    pub day: u8,
    /// Hour, 0 to 23.
    pub hour: u8,
    /// Minute, 0 to 59.
    pub minute: u8,
    /// Second, 0 to 59.
    pub second: u8,
    /// Hundredths of a second.
    pub hundredths: u8,
    /// Offset from GMT in 15-minute intervals.
    pub gmt_offset: i8,
}

/// Whether byte `b` is an ASCII decimal digit.
pub open spec fn is_digit(b: u8) -> bool {
    0x30 <= b <= 0x39
}

/// The value of the two ASCII digits at `i`.
pub open spec fn two_digits_at(d: Seq<u8>, i: int) -> int
    recommends
        0 <= i,
        i + 2 <= d.len(),
{
    (d[i] - 0x30) * 10 + (d[i + 1] - 0x30)
}

/// The value of the four ASCII digits at `i`.
pub open spec fn four_digits_at(d: Seq<u8>, i: int) -> int
    recommends
        0 <= i,
        i + 4 <= d.len(),
{
    two_digits_at(d, i) * 100 + two_digits_at(d, i + 2)
}

/// Whether the 16 text bytes at `off` denote an unset timestamp: all ASCII
/// zeros, all spaces, or all NUL bytes.
pub open spec fn vol_date_time_unset(d: Seq<u8>, off: int) -> bool {
    ||| (forall|i: int| off <= i < off + 16 ==> d[i] == 0x30)
    ||| (forall|i: int| off <= i < off + 16 ==> d[i] == 0x20)
    ||| (forall|i: int| off <= i < off + 16 ==> d[i] == 0)
}

/// The date-time encoded by the 17 bytes at `off`, when every text byte is a
/// digit.
pub open spec fn vol_date_time_at(d: Seq<u8>, off: int) -> VolumeDateTime
    recommends
        0 <= off,
        off + 17 <= d.len(),
{
    VolumeDateTime {
        year: four_digits_at(d, off) as u16,
        month: two_digits_at(d, off + 4) as u8,
        day: two_digits_at(d, off + 6) as u8,
        hour: two_digits_at(d, off + 8) as u8,
        minute: two_digits_at(d, off + 10) as u8,
        second: two_digits_at(d, off + 12) as u8,
        hundredths: two_digits_at(d, off + 14) as u8,
        gmt_offset: signed_of_byte(d[off + 16]),
    }
}

/// The all-zero placeholder for an unset volume timestamp.
pub open spec fn vol_date_time_zero() -> VolumeDateTime {
    VolumeDateTime {
        year: 0,
        month: 0,
        day: 0,
        hour: 0,
        minute: 0,
        second: 0,
        hundredths: 0,
        gmt_offset: 0,
    }
}

fn two_digits(d: &[u8], i: usize) -> (r: u8)
    requires
        i + 2 <= d@.len(),
        is_digit(d@[i as int]),
        is_digit(d@[i as int + 1]),
    ensures
        r == two_digits_at(d@, i as int),
{
    let len = d.len();
    assert(i + 2 <= len);
    (d[i] - 0x30) * 10 + (d[i + 1] - 0x30)
}

/// The value of the 17-byte volume-descriptor date-time at `off`: the
/// all-zero placeholder when unset, the encoded fields when all text bytes
/// are digits, and nothing otherwise.
pub open spec fn vol_date_time_value(d: Seq<u8>, off: int) -> Option<VolumeDateTime> {
    if vol_date_time_unset(d, off) {
        Some(vol_date_time_zero())
    } else if forall|i: int| off <= i < off + 16 ==> is_digit(d[i]) {
        Some(vol_date_time_at(d, off))
    } else {
        None
    }
}

/// Parses the 17-byte volume-descriptor date-time at `off`.  An unset field
/// maps to the all-zero placeholder; a set field whose text bytes are not
/// all decimal digits is rejected.
pub fn parse_vol_date_time(d: &[u8], off: usize) -> (r: Result<VolumeDateTime, ISOError>)
    requires
        off + 17 <= d@.len(),
    ensures
        r matches Ok(v) ==> vol_date_time_value(d@, off as int) == Some(v),
        vol_date_time_unset(d@, off as int) ==> r == Ok::<VolumeDateTime, ISOError>(
            vol_date_time_zero(),
        ),
        !vol_date_time_unset(d@, off as int) && (forall|i: int|
            off <= i < off + 16 ==> is_digit(d@[i])) ==> r == Ok::<VolumeDateTime, ISOError>(
            vol_date_time_at(d@, off as int),
        ),
        r is Err <==> !vol_date_time_unset(d@, off as int) && (exists|i: int|
            off <= i < off + 16 && !is_digit(d@[i])),
        r matches Err(e) ==> e == ISOError::ParseInt,
{
    let len = d.len();
    assert(off + 17 <= len);
    let mut all_zero = true;
    let mut all_space = true;
    let mut all_nul = true;
    let mut all_digit = true;
    let mut i: usize = 0;
    while i < 16
        invariant
            i <= 16,
            len == d@.len(),
            off + 17 <= len,
            all_zero == (forall|j: int| off <= j < off + i ==> d@[j] == 0x30),
            all_space == (forall|j: int| off <= j < off + i ==> d@[j] == 0x20),
            all_nul == (forall|j: int| off <= j < off + i ==> d@[j] == 0),
            all_digit == (forall|j: int| off <= j < off + i ==> is_digit(d@[j])),
        decreases 16 - i,
    {
        let b = d[off + i];
        if b != 0x30 {
            all_zero = false;
        }
        if b != 0x20 {
            all_space = false;
        }
        if b != 0 {
            all_nul = false;
        }
        if !(0x30 <= b && b <= 0x39) {
            all_digit = false;
        }
        i = i + 1;
    }
    if all_zero || all_space || all_nul {
        let zero = VolumeDateTime {
            year: 0,
            month: 0,
            day: 0,
            hour: 0,
            minute: 0,
            second: 0,
            hundredths: 0,
            gmt_offset: 0,
        };
        return Ok(zero);
    }
    if !all_digit {
        return Err(ISOError::ParseInt);
    }
    let tz = d[off + 16];
    let gmt_offset: i8 = if tz < 0x80 {
        tz as i8
    } else {
        (tz as i16 - 0x100) as i8
    };
    let year_hi = two_digits(d, off);
    let year_lo = two_digits(d, off + 2);
    Ok(VolumeDateTime {
        year: year_hi as u16 * 100 + year_lo as u16,
        month: two_digits(d, off + 4),
        day: two_digits(d, off + 6),
        hour: two_digits(d, off + 8),
        minute: two_digits(d, off + 10),
        second: two_digits(d, off + 12),
        hundredths: two_digits(d, off + 14),
        gmt_offset,
    })
}

/// The number of days from the Unix epoch to the given civil date, for years
/// from 1 onward (the standard era-based civil-calendar formula).
pub open spec fn days_from_civil(y: int, m: int, d: int) -> int
    recommends
        1 <= y,
        1 <= m <= 12,
{
    let yy = if m <= 2 {
        y - 1
    } else {
        y
    };
    let era = yy / 400;
    let yoe = yy - era * 400;
    let mp = if m > 2 {
        m - 3
    } else {
        m + 9
    };
    let doy = (153 * mp + 2) / 5 + d - 1;
    let doe = yoe * 365 + yoe / 4 - yoe / 100 + doy;
    era * 146097 + doe - 719468
}

/// The Unix timestamp of the given calendar fields with a timezone offset in
/// quarter hours.
pub open spec fn unix_seconds_of(
    y: int,
    m: int,
    d: int,
    h: int,
    min: int,
    s: int,
    offset_quarters: int,
) -> int {
    days_from_civil(y, m, d) * 86400 + h * 3600 + min * 60 + s - offset_quarters * 900
}

impl IsoDateTime {
    /// Whether the calendar fields are in the ranges a well-formed volume
    /// records.
    pub open spec fn spec_plausible(self) -> bool {
        1 <= self.month <= 12 && 1 <= self.day <= 31 && self.year >= 1
    }

    /// Converts to seconds since the Unix epoch; `None` when the month or
    /// day field is out of range.
    pub fn to_unix_seconds(&self) -> (r: Option<i64>)
        ensures
            r matches Some(s) ==> self.spec_plausible() && s == unix_seconds_of(
                self.year as int,
                self.month as int,
                self.day as int,
                self.hour as int,
                self.minute as int,
                self.second as int,
                self.gmt_offset as int,
            ),
            r is None <==> !self.spec_plausible(),
    {
        if !(1 <= self.month && self.month <= 12 && 1 <= self.day && self.day <= 31 && self.year
            >= 1) {
            return None;
        }
        let y: i64 = self.year as i64;
        let m: i64 = self.month as i64;
        let d: i64 = self.day as i64;
        let yy: i64 = if m <= 2 {
            y - 1
        } else {
            y
        };
        let era: i64 = yy / 400;
        let yoe: i64 = yy - era * 400;
        let mp: i64 = if m > 2 {
            m - 3
        } else {
            m + 9
        };
        let doy: i64 = (153 * mp + 2) / 5 + d - 1;
        let doe: i64 = yoe * 365 + yoe / 4 - yoe / 100 + doy;
        let days: i64 = era * 146097 + doe - 719468;
        let secs: i64 = days * 86400 + self.hour as i64 * 3600 + self.minute as i64 * 60
            + self.second as i64 - self.gmt_offset as i64 * 900;
        Some(secs)
    }
}

} // verus!
