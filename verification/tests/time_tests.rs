use rust_fat::error::Error;
use rust_fat::fat_time::timespec_from_fat;
use rust_fat::time::{ktime_ms_delta, Ktime, Timespec};

#[test]
fn ktime_round_trips_nanoseconds() {
    assert_eq!(Ktime::from_raw(123_456_789).to_ns(), 123_456_789);
    assert_eq!(Ktime::from_raw(-42).to_ns(), -42);
}

#[test]
fn ktime_to_ms_rounds_toward_zero() {
    assert_eq!(Ktime::from_raw(5_500_000).to_ms(), 5);
    assert_eq!(Ktime::from_raw(-5_500_000).to_ms(), -5);
    assert_eq!(Ktime::from_raw(999_999).to_ms(), 0);
}

#[test]
fn ktime_sub_and_ms_delta() {
    let later = Ktime::from_raw(10_000_000);
    let earlier = Ktime::from_raw(2_500_000);
    assert_eq!(later.sub(earlier).to_ns(), 7_500_000);
    assert_eq!(ktime_ms_delta(later, earlier), 7);
    assert_eq!(ktime_ms_delta(earlier, later), -7);
}

#[test]
fn timespec_new_reads_back() {
    let t = Timespec::new(10, 5).unwrap();
    assert_eq!(t.seconds(), 10);
    assert_eq!(t.nanoseconds(), 5);
    let t = Timespec::new(i64::MAX as u64, 999_999_999).unwrap();
    assert_eq!(t.seconds(), i64::MAX);
    assert_eq!(t.nanoseconds(), 999_999_999);
}

#[test]
fn timespec_new_rejects_full_second_of_nanoseconds() {
    assert!(matches!(Timespec::new(0, 1_000_000_000), Err(Error::Domain)));
}

#[test]
fn timespec_new_rejects_seconds_beyond_i64() {
    assert!(matches!(Timespec::new(u64::MAX, 0), Err(Error::InvalidArgument)));
    assert!(matches!(Timespec::new(u64::MAX, 1_000_000_000), Err(Error::Domain)));
}

#[test]
fn errno_values() {
    assert_eq!(Error::Io.to_errno(), -5);
    assert_eq!(Error::InvalidArgument.to_errno(), -22);
    assert_eq!(Error::Domain.to_errno(), -33);
}

#[test]
fn fat_epoch_is_1980() {
    // 1980-01-01 00:00:00
    let t = timespec_from_fat(33, 0, 0).unwrap();
    assert_eq!(t.seconds(), 315_532_800);
    assert_eq!(t.nanoseconds(), 0);
}

#[test]
fn fat_time_fields() {
    // 2000-03-01 12:34:56
    let date = (20 << 9) | (3 << 5) | 1;
    let time = (12 << 11) | (34 << 5) | 28;
    let t = timespec_from_fat(date, time, 0).unwrap();
    assert_eq!(t.seconds(), 951_914_096);
    let t = timespec_from_fat(date, time, 150).unwrap();
    assert_eq!(t.seconds(), 951_914_097);
    assert_eq!(t.nanoseconds(), 500_000_000);
}

#[test]
fn fat_time_clamps_fields() {
    // month 0 and day 0 clamp to January 1st; minute 63 to 59; second 62 to 58.
    let date = 1 << 9;
    let time = (23 << 11) | (63 << 5) | 31;
    let t = timespec_from_fat(date, time, 199).unwrap();
    assert_eq!(t.seconds(), 347_241_599);
    assert_eq!(t.nanoseconds(), 990_000_000);
}

#[test]
fn fat_time_never_fails() {
    for (date, time, cs) in [(0u16, 0u16, 0u8), (0xFFFF, 0xFFFF, 255), (0x1234, 0xBEEF, 100)] {
        assert!(timespec_from_fat(date, time, cs).is_ok());
    }
    assert_eq!(timespec_from_fat(0xFFFF, 0xFFFF, 255).unwrap().seconds(), 4_354_848_000);
}

#[test]
fn fat_leap_days_follow_the_gregorian_calendar() {
    // 1980-02-29 and 1980-03-01
    assert_eq!(timespec_from_fat((2 << 5) | 29, 0, 0).unwrap().seconds(), 320_630_400);
    assert_eq!(timespec_from_fat((3 << 5) | 1, 0, 0).unwrap().seconds(), 320_716_800);
    // 2100 is not a leap year: 2100-03-01
    assert_eq!(timespec_from_fat((120 << 9) | (3 << 5) | 1, 0, 0).unwrap().seconds(), 4_107_542_400);
    // 2104-12-31
    assert_eq!(timespec_from_fat((124 << 9) | (12 << 5) | 31, 0, 0).unwrap().seconds(), 4_260_124_800);
}
