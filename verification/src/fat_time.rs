//! Conversion of FAT on-disk date and time fields into timestamps.
//!
//! A FAT date packs `year - 1980` into bits 9..16, the month (1-12) into
//! bits 5..9 and the day (1-31) into bits 0..5. A FAT time packs the hour
//! into bits 11..16, the minute into bits 5..11 and half the second into
//! bits 0..5. Out-of-range months, days, minutes and seconds are clamped.

use vstd::prelude::*;
use crate::error::Error;
use crate::time::Timespec;

verus! {

const SECONDS_PER_MINUTE: u64 = 60;

const SECONDS_PER_HOUR: u64 = 3600;

const SECONDS_PER_DAY: u64 = 86400;

/// Days between 1970-01-01 and 1980-01-01 (2 leap days).
const FAT_EPOCH_DAY_SHIFT: u64 = 3652;

/// The FAT year (counted from 1980) of 2100, which is not a leap year.
const FAT_YEAR_2100: u16 = 120;

/// Cumulative number of days until the respective 1sts in non-leap years.
const CUMULATIVE_DAYS_IN_YEAR: [u32; 12] = [0, 31, 59, 90, 120, 151, 181, 212, 243, 273, 304, 334];

/// `x` limited to the range `lo..=hi`.
pub open spec fn clamp(x: int, lo: int, hi: int) -> int {
    if x < lo {
        lo
    } else if x > hi {
        hi
    } else {
        x
    }
}

/// Cumulative number of days before the first of month `m` (0-based) in a non-leap year.
pub open spec fn days_before_month(m: int) -> int {
    seq![0int, 31, 59, 90, 120, 151, 181, 212, 243, 273, 304, 334][m]
}

/// The year of a FAT date, counted from 1980.
pub open spec fn fat_year(date: u16) -> int {
    date as int / 512
}

/// The 0-based month of a FAT date; the stored month is clamped to 1..=12.
pub open spec fn fat_month(date: u16) -> int {
    clamp((date as int / 32) % 16, 1, 12) - 1
}

/// The 0-based day of a FAT date; the stored day is clamped to 1..=31.
pub open spec fn fat_day(date: u16) -> int {
    clamp(date as int % 32, 1, 31) - 1
}

/// The hour of a FAT time.
pub open spec fn fat_hour(time: u16) -> int {
    time as int / 2048
}

/// The minute of a FAT time, clamped to 0..=59.
pub open spec fn fat_minute(time: u16) -> int {
    clamp((time as int / 32) % 64, 0, 59)
}

/// The second of a FAT time: twice the stored value (clamped to 0..=29),
/// plus the whole seconds of the centisecond field.
pub open spec fn fat_second(time: u16, centiseconds: u8) -> int {
    clamp(time as int % 32, 0, 29) * 2 + centiseconds as int / 100
}

/// Leap days between 1980-01-01 and the given date: one per fourth year
/// before it (2100 excepted), and one more for a date from March on in a leap year.
pub open spec fn fat_leap_days(year: int, month: int) -> int {
    (year + 3) / 4 - (if year > 120 { 1int } else { 0int }) + (if year % 4 == 0 && year != 120
        && month > 1 {
        1int
    } else {
        0int
    })
}

/// The seconds since the Unix epoch that a FAT date, time and centisecond field denote.
pub open spec fn fat_seconds(date: u16, time: u16, centiseconds: u8) -> int {
    let year = fat_year(date);
    let month = fat_month(date);
    86400 * (3652 + year * 365 + days_before_month(month) + fat_day(date) + fat_leap_days(
        year,
        month,
    )) + 3600 * fat_hour(time) + 60 * fat_minute(time) + fat_second(time, centiseconds)
}

/// The nanoseconds within the second that a FAT centisecond field denotes.
pub open spec fn fat_nanoseconds(centiseconds: u8) -> int {
    (centiseconds as int % 100) * 10000000
}

/// Whether `y` is a leap year of the Gregorian calendar.
pub open spec fn is_leap_year(y: int) -> bool {
    y % 4 == 0 && (y % 100 != 0 || y % 400 == 0)
}

/// The number of days of year `y`.
pub open spec fn days_in_year(y: int) -> int {
    if is_leap_year(y) {
        366
    } else {
        365
    }
}

/// The number of days from 1970-01-01 to January 1st of year `y >= 1970`.
pub open spec fn days_from_1970(y: int) -> int
    decreases y - 1970,
{
    if y <= 1970 {
        0
    } else {
        days_from_1970(y - 1) + days_in_year(y - 1)
    }
}

/// The seconds since 1970-01-01T00:00:00Z of a UTC time in the Gregorian
/// calendar: year `y`, 0-based month `month` and day `day`, and the time of day.
pub open spec fn unix_seconds(y: int, month: int, day: int, hour: int, minute: int, second: int) -> int {
    86400 * (days_from_1970(y) + days_before_month(month) + (if is_leap_year(y) && month > 1 {
        1int
    } else {
        0int
    }) + day) + 3600 * hour + 60 * minute + second
}

/// The years a FAT date can hold, 1980 to 2107, follow the FAT leap day count.
proof fn lemma_fat_years(y: int)
    requires
        0 <= y <= 127,
    ensures
        days_from_1970(1980 + y) == 3652 + y * 365 + (y + 3) / 4 - (if y > 120 { 1int } else { 0int }),
        is_leap_year(1980 + y) == (y % 4 == 0 && y != 120),
    decreases y,
{
    if y == 0 {
        reveal_with_fuel(days_from_1970, 11);
    } else {
        lemma_fat_years(y - 1);
    }
}

/// FAT timestamps are Gregorian UTC times: the seconds a FAT date and time
/// denote are the seconds since the Unix epoch of the year, month, day, hour,
/// minute and second that its fields hold (after clamping).
pub proof fn lemma_fat_seconds_are_gregorian(date: u16, time: u16, centiseconds: u8)
    ensures
        fat_seconds(date, time, centiseconds) == unix_seconds(
            1980 + fat_year(date),
            fat_month(date),
            fat_day(date),
            fat_hour(time),
            fat_minute(time),
            fat_second(time, centiseconds),
        ),
{
    assert(0 <= fat_year(date) <= 127);
    lemma_fat_years(fat_year(date));
}

fn clamp_u16(x: u16, lo: u16, hi: u16) -> (r: u16)
    requires
        lo <= hi,
    ensures
        r == clamp(x as int, lo as int, hi as int),
{
    if x < lo {
        lo
    } else if x > hi {
        hi
    } else {
        x
    }
}

/// Convert FAT time fields into a [`Timespec`].
///
/// Every combination of fields denotes a time between 1980 and 2108, so the
/// conversion always succeeds.
pub fn timespec_from_fat(date: u16, time: u16, centiseconds: u8) -> (r: Result<Timespec, Error>)
    ensures
        r matches Ok(t) && t.sec() == fat_seconds(date, time, centiseconds) && t.nsec()
            == fat_nanoseconds(centiseconds),
{
    proof {
        assert(date >> 9 == date / 512 && (date >> 5) & 15 == (date / 32) % 16 && date & 31 == date
            % 32) by (bit_vector);
        assert(time >> 11 == time / 2048 && (time >> 5) & 63 == (time / 32) % 64 && time & 31 == time
            % 32) by (bit_vector);
    }
    let year = date >> 9;
    let month = clamp_u16((date >> 5) & 0b1111, 1, 12) - 1;
    let day = clamp_u16(date & 0b11111, 1, 31) - 1;

    let hour = time >> 11;
    let minute = clamp_u16((time >> 5) & 0b111111, 0, 59);
    let second = clamp_u16(time & 0b11111, 0, 29) * 2 + (centiseconds as u16 / 100);

    let mut leap_days = (year + 3) / 4;
    if year > FAT_YEAR_2100 {
        // 2100 is not a leap year
        leap_days -= 1;
    }
    // the leap day falls at the end of February (0-based month 1)
    if year % 4 == 0 && year != FAT_YEAR_2100 && month > 1 {
        leap_days += 1;
    }

    assert(CUMULATIVE_DAYS_IN_YEAR@ =~= seq![0u32, 31, 59, 90, 120, 151, 181, 212, 243, 273, 304, 334]);
    let days = FAT_EPOCH_DAY_SHIFT + year as u64 * 365 + CUMULATIVE_DAYS_IN_YEAR[month as usize] as u64
        + day as u64 + leap_days as u64;
    let sec = SECONDS_PER_DAY * days + SECONDS_PER_HOUR * hour as u64 + SECONDS_PER_MINUTE
        * minute as u64 + second as u64;

    // FAT times are taken as UTC: no time zone offset is applied.
    Timespec::new(sec, (centiseconds % 100) as u32 * 10000000)
}

} // verus!
