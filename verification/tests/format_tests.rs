use hifitime::duration::{Duration, Unit};
use hifitime::epoch::Epoch;
use hifitime::TimeSystem;

#[test]
fn gps_epoch_strings() {
    let gps_epoch = Epoch::from_tai_duration(Duration::from_count(2_524_953_619, Unit::Second));
    assert_eq!(
        gps_epoch.as_gregorian_str(TimeSystem::UTC),
        "1980-01-06T00:00:00 UTC"
    );
    assert_eq!(
        gps_epoch.as_gregorian_str(TimeSystem::TAI),
        "1980-01-06T00:00:19 TAI"
    );
}

#[test]
fn unix_epoch_strings() {
    let unix_epoch = Epoch::from_gregorian_utc_at_midnight(1970, 1, 1);
    assert_eq!(
        unix_epoch.as_gregorian_str(TimeSystem::UTC),
        "1970-01-01T00:00:00 UTC"
    );
    assert_eq!(
        unix_epoch.as_gregorian_str(TimeSystem::TAI),
        "1970-01-01T00:00:00 TAI"
    );
}

#[test]
fn fractional_seconds_string() {
    let e = Epoch::from_gregorian_utc(2017, 1, 14, 0, 31, 55, 811_200_000);
    assert_eq!(e.as_gregorian_utc_str(), "2017-01-14T00:31:55.811200000 UTC");
}

#[test]
fn string_reciprocity() {
    let greg = "2020-01-31T00:00:00 UTC";
    assert_eq!(
        greg,
        Epoch::from_gregorian_str(greg).unwrap().as_gregorian_utc_str()
    );
    let greg = "2020-01-31T00:00:00 TAI";
    assert_eq!(
        greg,
        Epoch::from_gregorian_str(greg).unwrap().as_gregorian_tai_str()
    );
}

#[test]
fn scale_strings_differ_by_offset() {
    // TT reads exactly 32.184 s later than TAI.
    let e = Epoch::from_gregorian_tai_at_midnight(2000, 1, 1);
    assert_eq!(
        e.as_gregorian_str(TimeSystem::TT),
        "2000-01-01T00:00:32.184000000 TT"
    );
}
