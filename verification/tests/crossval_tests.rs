use hifitime::duration::{Duration, Unit};
use hifitime::epoch::Epoch;

fn from_tai_s(seconds: i64) -> Epoch {
    Epoch::from_tai_duration(Duration::from_count(seconds, Unit::Second))
}

#[test]
fn utc_epochs_before_leap_seconds() {
    // Chronological dates cross-validated against NASA HEASARC; before
    // 1972 no leap second has accumulated, so UTC and TAI coincide.
    let cases: [(i64, i32, u8, u8, u8, u8, u8); 15] = [
        (1_199_333_568, 1938, 1, 3, 4, 12, 48),
        (1_204_156_800, 1938, 2, 28, 0, 0, 0),
        (1_204_243_199, 1938, 2, 28, 23, 59, 59),
        (1_204_243_200, 1938, 3, 1, 0, 0, 0),
        (1_206_850_368, 1938, 3, 31, 4, 12, 48),
        (1_214_194_368, 1938, 6, 24, 4, 12, 48),
        (1_220_069_568, 1938, 8, 31, 4, 12, 48),
        (1_230_610_368, 1938, 12, 31, 4, 12, 48),
        (1_230_696_768, 1939, 1, 1, 4, 12, 48),
        (1_235_794_368, 1939, 3, 1, 4, 12, 48),
        (1_267_416_768, 1940, 3, 1, 4, 12, 48),
        (1_233_375_168, 1939, 2, 1, 4, 12, 48),
        (1_264_911_168, 1940, 2, 1, 4, 12, 48),
        (1_267_243_968, 1940, 2, 28, 4, 12, 48),
        (1_267_330_368, 1940, 2, 29, 4, 12, 48),
    ];
    for (secs, y, m, d, h, mi, s) in cases.iter() {
        let from_secs = from_tai_s(*secs);
        let from_greg = Epoch::maybe_from_gregorian_utc(*y, *m, *d, *h, *mi, *s, 0).unwrap();
        assert_eq!(from_greg, from_secs, "Incorrect epoch");
        assert_eq!(from_secs.as_gregorian_utc(), (*y, *m, *d, *h, *mi, *s, 0));
    }
}

#[test]
fn utc_offset_around_2017_leap_second() {
    // Just prior to the 2017 leap second, UTC trails TAI by 36 seconds.
    let this_epoch = from_tai_s(3_692_217_599);
    let epoch_utc = Epoch::from_gregorian_utc_hms(2016, 12, 31, 23, 59, 23);
    assert_eq!(epoch_utc, this_epoch, "Incorrect epoch");
    assert_eq!(
        this_epoch.as_tai_duration().sub(this_epoch.as_utc_duration()),
        Duration::from_count(36, Unit::Second)
    );
    // Just after it, by 37 seconds.
    let this_epoch = from_tai_s(3_692_217_600);
    let epoch_utc = Epoch::from_gregorian_utc_hms(2016, 12, 31, 23, 59, 24);
    assert_eq!(epoch_utc, this_epoch, "Incorrect epoch");
    assert_eq!(
        this_epoch.as_tai_duration().sub(this_epoch.as_utc_duration()),
        Duration::from_count(37, Unit::Second)
    );
    // Adding an hour across the leap second shifts the UTC reading by an
    // hour minus nothing: the instant one hour later reads 00:59:23.
    let later = this_epoch.add_duration(Duration::from_count(1, Unit::Hour));
    assert_eq!(later, Epoch::from_gregorian_utc_hms(2017, 1, 1, 0, 59, 23));
}

#[test]
fn julian_days_from_epochs() {
    fn half_days(n: i64) -> Duration {
        Duration::from_count(n * 12, Unit::Hour)
    }
    // The 1900 reference is JD 2,415,020.5.
    let j1900 = from_tai_s(0);
    assert_eq!(j1900.as_jde_tai_duration(), half_days(2 * 2_415_020 + 1));
    // The GPS standard epoch is JD 2,444,244.5.
    let gps_std_epoch = Epoch::from_gregorian_tai_at_midnight(1980, 1, 6);
    assert_eq!(gps_std_epoch.as_jde_tai_duration(), half_days(2 * 2_444_244 + 1));
    // J2000 midnight is JD 2,451,544.5, in TAI and in UTC alike.
    let j2000 = Epoch::from_gregorian_tai_at_midnight(2000, 1, 1);
    assert_eq!(j2000.as_jde_tai_duration(), half_days(2 * 2_451_544 + 1));
    let j2000_utc = Epoch::from_gregorian_utc_at_midnight(2000, 1, 1);
    assert_eq!(j2000_utc.as_jde_utc_duration(), half_days(2 * 2_451_544 + 1));
    // TAI leads UTC at J2000 by the 32 accumulated leap seconds.
    assert!(j2000 < j2000_utc, "TAI not ahead of UTC on J2k");
    assert_eq!(
        j2000_utc.sub_epoch(j2000),
        Duration::from_count(32, Unit::Second)
    );
    // The day after the July 2015 leap second is JD 2,457,204.5.
    let post_leap = Epoch::from_gregorian_tai_at_midnight(2015, 7, 1);
    assert_eq!(post_leap.as_jde_tai_duration(), half_days(2 * 2_457_204 + 1));
}

#[test]
fn gpst_and_unix_references() {
    // The GPS epoch, 1980-01-06 UTC midnight, is the zero of the GPST scale.
    let gps_epoch = Epoch::from_gregorian_utc_at_midnight(1980, 1, 6);
    assert_eq!(gps_epoch.as_gpst_duration(), Duration::from_parts(0, 0));
    assert_eq!(
        gps_epoch.as_tai_duration(),
        Duration::from_count(2_524_953_619, Unit::Second)
    );
    // The UNIX epoch, 1970-01-01 UTC midnight, is the zero of the UNIX scale.
    let unix_epoch = Epoch::from_gregorian_utc_at_midnight(1970, 1, 1);
    assert_eq!(unix_epoch.as_unix_duration(), Duration::from_parts(0, 0));
    // 1 Jan 1980 lies five days before the GPS epoch.
    let epoch = Epoch::from_gregorian_utc_at_midnight(1980, 1, 1);
    assert_eq!(
        epoch.as_gpst_duration(),
        Duration::from_count(-5, Unit::Day)
    );
}
