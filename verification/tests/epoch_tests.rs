use hifitime::calendar::{is_gregorian_valid, is_leap_year};
use hifitime::duration::{Duration, Unit};
use hifitime::epoch::Epoch;
use core::str::FromStr;
use hifitime::{Errors, ParsingErrors, TimeSystem};

#[test]
fn leap_year() {
    assert!(!is_leap_year(2019));
    assert!(!is_leap_year(2001));
    assert!(!is_leap_year(1000));
    // List of leap years from https://kalender-365.de/leap-years.php .
    let leap_years: [i32; 146] = [
        1804, 1808, 1812, 1816, 1820, 1824, 1828, 1832, 1836, 1840, 1844, 1848, 1852, 1856, 1860,
        1864, 1868, 1872, 1876, 1880, 1884, 1888, 1892, 1896, 1904, 1908, 1912, 1916, 1920, 1924,
        1928, 1932, 1936, 1940, 1944, 1948, 1952, 1956, 1960, 1964, 1968, 1972, 1976, 1980, 1984,
        1988, 1992, 1996, 2000, 2004, 2008, 2012, 2016, 2020, 2024, 2028, 2032, 2036, 2040, 2044,
        2048, 2052, 2056, 2060, 2064, 2068, 2072, 2076, 2080, 2084, 2088, 2092, 2096, 2104, 2108,
        2112, 2116, 2120, 2124, 2128, 2132, 2136, 2140, 2144, 2148, 2152, 2156, 2160, 2164, 2168,
        2172, 2176, 2180, 2184, 2188, 2192, 2196, 2204, 2208, 2212, 2216, 2220, 2224, 2228, 2232,
        2236, 2240, 2244, 2248, 2252, 2256, 2260, 2264, 2268, 2272, 2276, 2280, 2284, 2288, 2292,
        2296, 2304, 2308, 2312, 2316, 2320, 2324, 2328, 2332, 2336, 2340, 2344, 2348, 2352, 2356,
        2360, 2364, 2368, 2372, 2376, 2380, 2384, 2388, 2392, 2396, 2400,
    ];
    for year in leap_years.iter() {
        assert!(is_leap_year(*year));
    }
}

#[test]
fn datetime_invalid_dates() {
    assert!(!is_gregorian_valid(2001, 2, 29, 22, 8, 47, 0));
    assert!(!is_gregorian_valid(2016, 12, 31, 23, 59, 61, 0));
    assert!(!is_gregorian_valid(2015, 6, 30, 23, 59, 61, 0));
}

#[test]
fn regression_test_gh_85() {
    let earlier_epoch =
        Epoch::maybe_from_gregorian(2020, 1, 8, 16, 1, 17, 100, TimeSystem::TAI).unwrap();
    let later_epoch =
        Epoch::maybe_from_gregorian(2020, 1, 8, 16, 1, 17, 200, TimeSystem::TAI).unwrap();

    assert!(
        later_epoch > earlier_epoch,
        "later_epoch should be 100ns after earlier_epoch"
    );
}

#[test]
fn test_get_num_leap_seconds() {
    // Just before the very first leap second.
    let epoch_from_utc_greg = Epoch::from_gregorian_tai_hms(1971, 12, 31, 23, 59, 59);
    // Just after it.
    let epoch_from_utc_greg1 = Epoch::from_gregorian_tai_hms(1972, 1, 1, 0, 0, 0);
    assert_eq!(epoch_from_utc_greg.get_num_leap_seconds(), 0);
    // The first leap second is special; it adds 10 seconds.
    assert_eq!(epoch_from_utc_greg1.get_num_leap_seconds(), 10);

    // Just before the second leap second.
    let epoch_from_utc_greg = Epoch::from_gregorian_tai_hms(1972, 6, 30, 23, 59, 59);
    // Just after it.
    let epoch_from_utc_greg1 = Epoch::from_gregorian_tai_hms(1972, 7, 1, 0, 0, 0);
    assert_eq!(epoch_from_utc_greg.get_num_leap_seconds(), 10);
    assert_eq!(epoch_from_utc_greg1.get_num_leap_seconds(), 11);
}

#[test]
fn test_floor_ceil_round() {
    let e = Epoch::from_gregorian_tai_hms(2022, 5, 20, 17, 57, 43);
    let one_hour = Duration::from_count(1, Unit::Hour);
    assert_eq!(
        e.ceil(one_hour),
        Epoch::from_gregorian_tai_hms(2022, 5, 20, 18, 0, 0)
    );
    assert_eq!(
        e.floor(one_hour),
        Epoch::from_gregorian_tai_hms(2022, 5, 20, 17, 0, 0)
    );
    assert_eq!(
        e.round(one_hour),
        Epoch::from_gregorian_tai_hms(2022, 5, 20, 18, 0, 0)
    );
}

#[test]
fn test_ord() {
    let epoch1 = Epoch::maybe_from_gregorian(2020, 1, 8, 16, 1, 17, 100, TimeSystem::TAI).unwrap();
    let epoch2 = Epoch::maybe_from_gregorian(2020, 1, 8, 16, 1, 17, 200, TimeSystem::TAI).unwrap();

    assert_eq!(epoch1.max(epoch2), epoch2);
    assert_eq!(epoch2.min(epoch1), epoch1);
    assert_eq!(epoch1.cmp(&epoch1), core::cmp::Ordering::Equal);
}

#[test]
fn test_utc_str() {
    let dt_str = "2017-01-14T00:31:55 UTC";
    let dt = Epoch::from_gregorian_str(dt_str).unwrap();
    let (centuries, nanos) = dt.as_tai_duration().to_parts();
    assert_eq!(centuries, 1);
    assert_eq!(nanos, 537582752000000000);
}

#[test]
fn gregorian_str_variants() {
    let dt = Epoch::from_gregorian_utc(2017, 1, 14, 0, 31, 55, 0);
    assert_eq!(dt, Epoch::from_gregorian_str("2017-01-14T00:31:55 UTC").unwrap());
    assert_eq!(dt, Epoch::from_gregorian_str("2017-01-14T00:31:55.0000 UTC").unwrap());
    assert_eq!(dt, Epoch::from_gregorian_str("2017-01-14T00:31:55").unwrap());
    assert_eq!(dt, Epoch::from_gregorian_str("2017-01-14 00:31:55").unwrap());
    // Fractions shorter than nine digits are right-padded with zeros.
    assert_eq!(
        Epoch::from_gregorian_utc(2017, 1, 14, 0, 31, 55, 811000000),
        Epoch::from_gregorian_str("2017-01-14 00:31:55.811 UTC").unwrap()
    );
    assert_eq!(
        Epoch::from_gregorian_utc(2017, 1, 14, 0, 31, 55, 811200000),
        Epoch::from_gregorian_str("2017-01-14 00:31:55.8112 UTC").unwrap()
    );
    // Other scale tags reach their own constructors.
    assert_eq!(
        Epoch::from_gregorian_tai(2017, 1, 14, 0, 31, 55, 0),
        Epoch::from_gregorian_str("2017-01-14 00:31:55 TAI").unwrap()
    );
    assert!(Epoch::from_gregorian_str("2017-01-14 00:31:55 TT").is_ok());
    assert!(Epoch::from_gregorian_str("2017-01-14 00:31:55 ET").is_ok());
}

#[test]
fn gregorian_str_errors() {
    assert_eq!(
        Epoch::from_gregorian_str("2017-01-14"),
        Err(Errors::ParseError(ParsingErrors::ISO8601))
    );
    assert_eq!(
        Epoch::from_gregorian_str("not a date at all!!"),
        Err(Errors::ParseError(ParsingErrors::ISO8601))
    );
    // A fraction of more than nine digits does not fit a nanosecond count.
    assert_eq!(
        Epoch::from_gregorian_str("2017-01-14T00:31:55.1234567890 UTC"),
        Err(Errors::ParseError(ParsingErrors::ISO8601))
    );
    assert_eq!(
        Epoch::from_gregorian_str("2017-01-14T00:31:55 XYZ"),
        Err(Errors::ParseError(ParsingErrors::TimeSystem))
    );
    // A valid shape with an invalid date carries over the calendar error.
    assert_eq!(
        Epoch::from_gregorian_str("2017-13-14T00:31:55 UTC"),
        Err(Errors::Carry)
    );
}

#[test]
fn time_system_from_str() {
    assert_eq!(TimeSystem::from_str("UTC"), Ok(TimeSystem::UTC));
    assert_eq!(TimeSystem::from_str("TT"), Ok(TimeSystem::TT));
    assert_eq!(TimeSystem::from_str("TAI"), Ok(TimeSystem::TAI));
    assert_eq!(TimeSystem::from_str("TDB"), Ok(TimeSystem::TDB));
    assert_eq!(TimeSystem::from_str("ET"), Ok(TimeSystem::ET));
    assert_eq!(
        TimeSystem::from_str("GPS"),
        Err(Errors::ParseError(ParsingErrors::TimeSystem))
    );
}

#[test]
fn enum_eq() {
    // Check the equality compiles (if one compiles, then all asserts will work)
    assert!(Errors::Carry == Errors::Carry);
    assert!(ParsingErrors::ParseIntError == ParsingErrors::ParseIntError);
    assert!(TimeSystem::ET == TimeSystem::ET);
}
