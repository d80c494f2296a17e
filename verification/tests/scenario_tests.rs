use hifitime::duration::{Duration, Unit};
use hifitime::epoch::{gregorian_str_of_duration, Epoch};
use hifitime::{Errors, TimeSystem};

#[test]
fn gregorian_utc_to_tai_parts() {
    let e = Epoch::from_gregorian_utc(2017, 1, 14, 0, 31, 55, 0);
    assert_eq!(e.to_tai_parts(), (1, 537_582_752_000_000_000));
}

#[test]
fn tai_seconds_to_gregorian() {
    let e = Epoch::from_tai_duration(Duration::from_count(2_272_060_800, Unit::Second));
    assert_eq!(e.as_gregorian_tai(), (1972, 1, 1, 0, 0, 0, 0));
    // In UTC the same instant lies the ten accumulated seconds earlier.
    assert_eq!(e.as_gregorian_utc(), (1971, 12, 31, 23, 59, 50, 0));
}

#[test]
fn leap_second_is_one_second() {
    let during = Epoch::from_gregorian_utc(1972, 6, 30, 23, 59, 60, 0);
    let before = Epoch::from_gregorian_utc(1972, 6, 30, 23, 59, 59, 0);
    assert_eq!(during.sub_epoch(before), Duration::from_count(1, Unit::Second));
}

#[test]
fn tai_utc_offset_in_2017() {
    let e = Epoch::from_gregorian_utc(2017, 1, 14, 0, 31, 55, 0);
    let offset = e.as_tai_duration().sub(e.as_utc_duration());
    assert_eq!(offset, Duration::from_count(37, Unit::Second));
}

#[test]
fn et_epoch_is_j2000_julian_day() {
    let e = Epoch::from_et_duration(Duration::from_parts(0, 0));
    assert_eq!(
        e.as_jde_et_duration(),
        Duration::from_count(2_451_545, Unit::Day)
    );
}

#[test]
fn gpst_nanoseconds_round_trip() {
    for k in [0u64, 1, 1_000_000_007, 3_155_759_999_999_999_999].iter() {
        assert_eq!(
            Epoch::from_gpst_nanoseconds(*k).as_gpst_nanoseconds(),
            Ok(*k)
        );
    }
}

#[test]
fn floor_to_hour_in_tai() {
    let e = Epoch::from_gregorian_tai_hms(2022, 5, 20, 17, 57, 43);
    assert_eq!(
        e.floor(Duration::from_count(1, Unit::Hour)),
        Epoch::from_gregorian_tai_hms(2022, 5, 20, 17, 0, 0)
    );
}

#[test]
fn leap_seconds_at_first_insertion() {
    let before = Epoch::from_gregorian_tai_hms(1971, 12, 31, 23, 59, 59);
    let at = Epoch::from_gregorian_tai_at_midnight(1972, 1, 1);
    assert_eq!(before.get_num_leap_seconds(), 0);
    assert_eq!(at.get_num_leap_seconds(), 10);
}

#[test]
fn carry_error_on_invalid_dates() {
    assert_eq!(
        Epoch::maybe_from_gregorian_tai(2001, 2, 29, 22, 8, 47, 0),
        Err(Errors::Carry)
    );
    assert_eq!(
        Epoch::maybe_from_gregorian_utc(2015, 6, 30, 23, 59, 61, 0),
        Err(Errors::Carry)
    );
    assert_eq!(
        Epoch::maybe_from_gregorian_tai(2020, 13, 1, 0, 0, 0, 0),
        Err(Errors::Carry)
    );
    assert_eq!(
        Epoch::maybe_from_gregorian_tai(2020, 1, 0, 0, 0, 0, 0),
        Err(Errors::Carry)
    );
}

#[test]
fn overflow_error_on_gpst_nanoseconds() {
    // Before the GPS epoch the nanosecond count would be negative.
    let early = Epoch::from_gregorian_utc_at_midnight(1980, 1, 1);
    assert_eq!(early.as_gpst_nanoseconds(), Err(Errors::Overflow));
    // A century past the GPS epoch it no longer fits the sub-century count.
    let late = Epoch::from_gregorian_tai_at_midnight(2085, 1, 1);
    assert_eq!(late.as_gpst_nanoseconds(), Err(Errors::Overflow));
}

#[test]
fn unix_seconds_in_2022() {
    let e = Epoch::from_gregorian_utc_hms(2022, 5, 2, 10, 39, 15);
    assert_eq!(
        e.as_unix_duration(),
        Duration::from_count(1_651_487_955, Unit::Second)
    );
    assert_eq!(
        Epoch::from_unix_duration(Duration::from_count(1_651_487_955, Unit::Second)),
        e
    );
}

#[test]
fn gregorian_round_trip_before_1900() {
    // Days before the reference count negatively, so construction and
    // decomposition invert each other there too.
    let e = Epoch::from_gregorian_tai(1899, 7, 4, 12, 30, 15, 0);
    assert!(e.as_tai_duration() < Duration::from_parts(0, 0));
    assert_eq!(e.as_gregorian_tai(), (1899, 7, 4, 12, 30, 15, 0));
    // One nanosecond before the reference is the last instant of 1899.
    let eve = Epoch::from_tai_duration(Duration::from_count(-1, Unit::Nanosecond));
    assert_eq!(eve.as_gregorian_tai(), (1899, 12, 31, 23, 59, 59, 999_999_999));
}

#[test]
fn gregorian_string_of_plain_duration() {
    assert_eq!(
        gregorian_str_of_duration(Duration::from_parts(0, 0), TimeSystem::TDB),
        "1900-01-01T00:00:00 TDB"
    );
    let d = Duration::from_count(31 + 5, Unit::Day);
    assert_eq!(
        gregorian_str_of_duration(d, TimeSystem::TDB),
        "1900-02-06T00:00:00 TDB"
    );
}

#[test]
fn gregorian_tai_round_trip_with_nanos() {
    let e = Epoch::from_gregorian_tai(1995, 11, 7, 11, 22, 33, 456_789_012);
    assert_eq!(e.as_gregorian_tai(), (1995, 11, 7, 11, 22, 33, 456_789_012));
    // The last instant of a year decomposes on the December side.
    let eve = Epoch::from_gregorian_tai_hms(2003, 12, 31, 23, 59, 59);
    assert_eq!(eve.as_gregorian_tai(), (2003, 12, 31, 23, 59, 59, 0));
    // A leap day decomposes in place.
    let leap_day = Epoch::from_gregorian_tai_at_noon(2000, 2, 29);
    assert_eq!(leap_day.as_gregorian_tai(), (2000, 2, 29, 12, 0, 0, 0));
}
