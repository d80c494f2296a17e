use hifitime::calendar::is_leap_year;
use hifitime::duration::{Duration, Unit, NS_PER_CENTURY};
use hifitime::epoch::Epoch;

fn zero() -> Duration {
    Duration::from_parts(0, 0)
}

#[test]
fn normalization_invariant_after_ops() {
    // The sub-century remainder stays in [0, NS_PER_CENTURY) through
    // arithmetic, negation and rounding, even for negative totals.
    let a = Duration::from_count(90, Unit::Century);
    let b = Duration::from_count(-3, Unit::Nanosecond);
    let samples = [
        a,
        b,
        a.add(b),
        a.sub(b),
        b.sub(a),
        b.neg(),
        a.floor(Duration::from_count(7, Unit::Minute)),
        b.ceil(Duration::from_count(7, Unit::Minute)),
        b.round(Duration::from_count(7, Unit::Minute)),
    ];
    for d in samples.iter() {
        assert!(d.to_parts().1 < NS_PER_CENTURY);
    }
    // A minus nanosecond is one century down with a full remainder.
    assert_eq!(b.to_parts(), (-1, NS_PER_CENTURY - 3));
}

#[test]
fn sub_self_is_zero() {
    let d = Duration::from_count(123_456, Unit::Second);
    assert_eq!(d.sub(d), zero());
    let neg = Duration::from_count(-98_765, Unit::Minute);
    assert_eq!(neg.sub(neg), zero());
    let e = Epoch::from_gregorian_tai_hms(1999, 12, 31, 23, 59, 59);
    assert_eq!(e.sub_epoch(e), zero());
}

#[test]
fn add_then_sub_recovers() {
    let e = Epoch::from_gregorian_tai_at_noon(2010, 7, 19);
    let d = Duration::from_count(8_641_234, Unit::Millisecond);
    assert_eq!(e.add_duration(d).sub_epoch(e), d);
    let neg = Duration::from_count(-5, Unit::Week);
    assert_eq!(e.add_duration(neg).sub_epoch(e), neg);
}

#[test]
fn sub_antisymmetric() {
    let a = Epoch::from_gregorian_tai_at_midnight(1980, 1, 6);
    let b = Epoch::from_gregorian_tai_hms(2021, 3, 4, 5, 6, 7);
    assert_eq!(a.sub_epoch(b), b.sub_epoch(a).neg());
    assert_eq!(b.sub_epoch(a), a.sub_epoch(b).neg());
}

#[test]
fn round_trips_bit_exact() {
    let e = Epoch::from_gregorian_utc(2017, 1, 14, 0, 31, 55, 811_200_000);
    // TAI round trip.
    assert_eq!(Epoch::from_tai_duration(e.as_tai_duration()), e);
    // GPST round trip.
    let n = e.as_gpst_nanoseconds().unwrap();
    assert_eq!(Epoch::from_gpst_nanoseconds(n), e);
    // UTC round trip.
    assert_eq!(Epoch::from_utc_duration(e.as_utc_duration()), e);
    // UNIX round trip.
    assert_eq!(Epoch::from_unix_duration(e.as_unix_duration()), e);
    // TT and ET round trips are exact at the duration level.
    assert_eq!(Epoch::from_tt_duration(e.as_tt_duration()), e);
    assert_eq!(Epoch::from_et_duration(e.as_et_duration()), e);
}

#[test]
fn leap_seconds_monotone() {
    let dates: [(i32, u8, u8); 8] = [
        (1960, 1, 1),
        (1971, 12, 31),
        (1972, 1, 1),
        (1980, 6, 1),
        (1990, 1, 1),
        (2005, 12, 31),
        (2017, 1, 1),
        (2050, 1, 1),
    ];
    let mut prev = -1;
    for (y, m, d) in dates.iter() {
        let cnt = Epoch::from_gregorian_tai_at_midnight(*y, *m, *d).get_num_leap_seconds();
        assert!(cnt >= prev);
        prev = cnt;
    }
}

#[test]
fn leap_years_per_400_block() {
    // Any block of 400 consecutive years holds exactly 97 leap years.
    for start in [1600, 1700, 1900, 2000, 1873].iter() {
        let mut count = 0;
        let mut y = *start;
        while y < *start + 400 {
            if is_leap_year(y) {
                count += 1;
            }
            y += 1;
        }
        assert_eq!(count, 97);
    }
}

#[test]
fn floor_ceil_round_bracket() {
    let step = Duration::from_count(11, Unit::Minute);
    let samples = [
        Duration::from_count(12_345_678, Unit::Second),
        Duration::from_count(-12_345_678, Unit::Second),
        Duration::from_count(33, Unit::Minute),
        zero(),
    ];
    for d in samples.iter() {
        let f = d.floor(step);
        let c = d.ceil(step);
        let r = d.round(step);
        assert!(f <= *d && *d <= c);
        let gap = c.sub(f);
        assert!(gap == zero() || gap == step);
        assert!(r == f || r == c);
        let down = d.sub(f);
        let up = c.sub(*d);
        if down < up {
            assert_eq!(r, f);
        }
        if up < down {
            assert_eq!(r, c);
        }
    }
    // A tie rounds up to the ceiling.
    let even_step = Duration::from_count(10, Unit::Second);
    let tie = Duration::from_count(25, Unit::Second);
    assert_eq!(tie.round(even_step), Duration::from_count(30, Unit::Second));
}

#[test]
fn decompose_signed_remainders() {
    let d = Duration::from_count(86_400_000_000_000 + 3_600_000_000_000 * 2 + 60_000_000_000 * 3
        + 4_000_000_000 + 5_000_000 + 6_000 + 7, Unit::Nanosecond);
    assert_eq!(d.decompose(), (1, 1, 2, 3, 4, 5, 6, 7));
    assert_eq!(d.neg().decompose(), (-1, 1, 2, 3, 4, 5, 6, 7));
    assert_eq!(zero().decompose(), (1, 0, 0, 0, 0, 0, 0, 0));
}

#[test]
fn scalar_multiplication() {
    let d = Duration::from_count(90, Unit::Minute);
    assert_eq!(d.mul_int(4), Duration::from_count(6, Unit::Hour));
    assert_eq!(d.mul_int(-2), Duration::from_count(-3, Unit::Hour));
    assert_eq!(d.mul_int(0), Duration::from_parts(0, 0));
    // Overflow saturates on the matching side.
    let big = Duration::from_count(20_000, Unit::Century);
    assert_eq!(big.mul_int(i64::MAX).to_parts(), (i16::MAX, 0));
    assert_eq!(big.mul_int(i64::MIN).to_parts(), (i16::MIN, 0));
}

#[test]
fn saturation_at_bounds() {
    let max = Duration::from_parts(i16::MAX, NS_PER_CENTURY - 1);
    let one = Duration::from_count(1, Unit::Second);
    // Overflow saturates to the bound with a zero remainder.
    assert_eq!(max.add(one).to_parts(), (i16::MAX, 0));
    let min = Duration::from_parts(i16::MIN, 0);
    assert_eq!(min.sub(one).to_parts(), (i16::MIN, 0));
}
