//! An instant in time: a duration measured in TAI from the reference
//! 1900-01-01T00:00:00, with constructors and accessors for every supported
//! time scale, the leap-second table, and the Gregorian calendar maps.

use crate::calendar::{
    cum_days_before_month, days_in_month_spec, gregorian_days_from_1900, gregorian_tai_ns,
    is_gregorian_valid, is_gregorian_valid_spec, is_leap_year, is_leap_year_spec,
    leap_days_1900_to, usual_days_per_month,
};
use crate::duration::{
    clamp_total_ns, max_total_ns, min_total_ns, Duration, NS_PER_CENTURY, NS_PER_DAY, NS_PER_HOUR,
    NS_PER_MINUTE, NS_PER_SECOND,
};
use crate::parse::{parse_gregorian, spec_parse_gregorian};
use crate::{Errors, TimeSystem};
use vstd::arithmetic::div_mod::{
    lemma_fundamental_div_mod, lemma_fundamental_div_mod_converse, lemma_mod_bound,
};
use vstd::prelude::*;
use vstd::string::StringSliceAdditionalSpecFns;

verus! {

/// Nanoseconds of the TT minus TAI offset: exactly 32.184 s.
pub const NS_TT_OFFSET: i128 = 32_184_000_000;

/// Nanoseconds of the ET minus TAI offset at J2000: exactly 32.184935 s.
pub const NS_ET_OFFSET: i128 = 32_184_935_000;

/// The J2000 reference in TAI nanoseconds since the 1900 reference.
pub const NS_ET_EPOCH: i128 = 3_155_716_800 * 1_000_000_000;

/// The GPS time epoch (1980-01-06T00:00:00 UTC) in TAI nanoseconds since
/// the 1900 reference: 80 Julian years, 4 days and the 19 leap seconds
/// that had accumulated past the initial ten.
pub const NS_GPST_OFFSET: i128 = 2_524_953_619 * 1_000_000_000;

/// The UNIX epoch (1970-01-01T00:00:00 UTC) in TAI nanoseconds since the
/// 1900 reference; no leap second predates it.
pub const NS_UNIX_REF: i128 = 2_208_988_800 * 1_000_000_000;

/// Nanoseconds between the Modified Julian Day origin and the 1900
/// reference: 15,020 days.
pub const NS_J1900_OFFSET: i128 = 15_020 * 86_400_000_000_000;

/// Nanoseconds between the Julian Day origin and the Modified Julian Day
/// origin: 2,400,000.5 days.
pub const NS_MJD_OFFSET: i128 = 207_360_043_200 * 1_000_000_000;

/// Nanoseconds between the Modified Julian Day origin and J2000:
/// 51,544.5 days.
pub const NS_J2000_OFFSET: i128 = 4_453_444_800 * 1_000_000_000;

/// How many leap-second table entries exist.
pub const LEAP_SECOND_ENTRIES: usize = 28;

/// The TAI second (since the 1900 reference) at which the `i`-th leap
/// second was inserted, from the IETF table; the first entry, 1972-01-01,
/// carries the ten seconds that had accumulated up to it.
pub open spec fn leap_threshold_s(i: int) -> int {
    if i == 0 {
        2_272_060_800
    } else if i == 1 {
        2_287_785_600
    } else if i == 2 {
        2_303_683_200
    } else if i == 3 {
        2_335_219_200
    } else if i == 4 {
        2_366_755_200
    } else if i == 5 {
        2_398_291_200
    } else if i == 6 {
        2_429_913_600
    } else if i == 7 {
        2_461_449_600
    } else if i == 8 {
        2_492_985_600
    } else if i == 9 {
        2_524_521_600
    } else if i == 10 {
        2_571_782_400
    } else if i == 11 {
        2_603_318_400
    } else if i == 12 {
        2_634_854_400
    } else if i == 13 {
        2_698_012_800
    } else if i == 14 {
        2_776_982_400
    } else if i == 15 {
        2_840_140_800
    } else if i == 16 {
        2_871_676_800
    } else if i == 17 {
        2_918_937_600
    } else if i == 18 {
        2_950_473_600
    } else if i == 19 {
        2_982_009_600
    } else if i == 20 {
        3_029_443_200
    } else if i == 21 {
        3_076_704_000
    } else if i == 22 {
        3_124_137_600
    } else if i == 23 {
        3_345_062_400
    } else if i == 24 {
        3_439_756_800
    } else if i == 25 {
        3_550_089_600
    } else if i == 26 {
        3_644_697_600
    } else {
        3_692_217_600
    }
}

/// The TAI second at which the `i`-th leap second was inserted.
fn leap_threshold(i: usize) -> (r: u64)
    requires
        i < LEAP_SECOND_ENTRIES,
    ensures
        r == leap_threshold_s(i as int),
{
    if i == 0 {
        2_272_060_800
    } else if i == 1 {
        2_287_785_600
    } else if i == 2 {
        2_303_683_200
    } else if i == 3 {
        2_335_219_200
    } else if i == 4 {
        2_366_755_200
    } else if i == 5 {
        2_398_291_200
    } else if i == 6 {
        2_429_913_600
    } else if i == 7 {
        2_461_449_600
    } else if i == 8 {
        2_492_985_600
    } else if i == 9 {
        2_524_521_600
    } else if i == 10 {
        2_571_782_400
    } else if i == 11 {
        2_603_318_400
    } else if i == 12 {
        2_634_854_400
    } else if i == 13 {
        2_698_012_800
    } else if i == 14 {
        2_776_982_400
    } else if i == 15 {
        2_840_140_800
    } else if i == 16 {
        2_871_676_800
    } else if i == 17 {
        2_918_937_600
    } else if i == 18 {
        2_950_473_600
    } else if i == 19 {
        2_982_009_600
    } else if i == 20 {
        3_029_443_200
    } else if i == 21 {
        3_076_704_000
    } else if i == 22 {
        3_124_137_600
    } else if i == 23 {
        3_345_062_400
    } else if i == 24 {
        3_439_756_800
    } else if i == 25 {
        3_550_089_600
    } else if i == 26 {
        3_644_697_600
    } else {
        3_692_217_600
    }
}

/// The cumulative leap-second count a TAI instant has reached, considering
/// only the first `i` table entries: 0 before the first entry, 10 at it,
/// and one more at each later entry.
pub open spec fn leap_count_upto(t: int, i: int) -> int
    decreases (if i <= 0 { 0int } else { i }),
{
    if i <= 0 {
        0
    } else if t >= leap_threshold_s(i - 1) * (NS_PER_SECOND as int) {
        9 + i
    } else {
        leap_count_upto(t, i - 1)
    }
}

/// The accumulated leap seconds at a TAI instant given in nanoseconds
/// since the 1900 reference.
pub open spec fn leap_count_spec(t: int) -> int {
    leap_count_upto(t, LEAP_SECOND_ENTRIES as int)
}

/// The table is strictly increasing.
proof fn lemma_leap_thresholds_sorted(i: int)
    requires
        1 <= i < LEAP_SECOND_ENTRIES,
    ensures
        leap_threshold_s(i - 1) < leap_threshold_s(i),
{
}

/// The count from a prefix of the table stays within the final bounds.
proof fn lemma_leap_count_upto_bounds(t: int, i: int)
    requires
        0 <= i,
    ensures
        leap_count_upto(t, i) == 0 || (10 <= leap_count_upto(t, i) <= 9 + i),
    decreases i,
{
    if i > 0 {
        lemma_leap_count_upto_bounds(t, i - 1);
    }
}

/// The leap-second count never exceeds the full table's reach.
pub proof fn lemma_leap_count_bounds(t: int)
    ensures
        0 <= leap_count_spec(t) <= 37,
{
    lemma_leap_count_upto_bounds(t, LEAP_SECOND_ENTRIES as int);
}

/// A later TAI instant never sees fewer leap seconds, considering any
/// prefix of the table.
proof fn lemma_leap_count_upto_monotone(t1: int, t2: int, i: int)
    requires
        t1 <= t2,
        0 <= i,
    ensures
        leap_count_upto(t1, i) <= leap_count_upto(t2, i),
    decreases i,
{
    if i > 0 {
        lemma_leap_count_upto_monotone(t1, t2, i - 1);
        lemma_leap_count_upto_bounds(t1, i);
        lemma_leap_count_upto_bounds(t2, i);
        lemma_leap_count_upto_bounds(t1, i - 1);
    }
}

/// The accumulated leap-second count is monotone, non-decreasing in TAI.
pub proof fn lemma_leap_count_monotone(t1: int, t2: int)
    requires
        t1 <= t2,
    ensures
        leap_count_spec(t1) <= leap_count_spec(t2),
{
    lemma_leap_count_upto_monotone(t1, t2, LEAP_SECOND_ENTRIES as int);
}

/// The fixed shift, in nanoseconds, that maps a Gregorian reading in the
/// given scale onto the internal TAI duration; the UTC and TDB scales are
/// not fixed shifts and are handled by their own constructors.
pub open spec fn gregorian_offset_ns(ts: TimeSystem) -> int {
    match ts {
        TimeSystem::TAI => 0,
        TimeSystem::TT => -(NS_TT_OFFSET as int),
        TimeSystem::ET => NS_ET_EPOCH - NS_ET_OFFSET,
        TimeSystem::TDB => 0,
        TimeSystem::UTC => 0,
    }
}

/// The TAI total a Gregorian date-time read in UTC lands on: the TAI
/// reading plus the leap seconds accumulated at that reading. A literal
/// second of 60 has its leap count taken at the full reading — the
/// following midnight — and then steps one second back, so that 23:59:60
/// lies one second after 23:59:59 and one before the next 00:00:00.
pub open spec fn utc_gregorian_total_ns(
    y: int,
    m: int,
    d: int,
    h: int,
    mi: int,
    s: int,
    ns: int,
) -> int {
    let adj: int = if s == 60 {
        NS_PER_SECOND as int
    } else {
        0
    };
    let t0 = clamp_total_ns(gregorian_tai_ns(y, m, d, h, mi, s, ns));
    let t_full = clamp_total_ns(t0 + adj);
    clamp_total_ns(t_full + leap_count_spec(t_full) * NS_PER_SECOND - adj)
}

/// Nanoseconds in a plain year of 365 days, the divisor of the first step
/// of the calendar decomposition.
pub const NS_PER_365_DAYS: i128 = 365 * 86_400_000_000_000;

/// The whole 365-day years a TAI total spans: the first estimate of the
/// calendar year of an instant.
pub open spec fn greg_year_offset(t: int) -> int {
    t / (365 * (NS_PER_DAY as int))
}

/// What remains of a TAI total once the estimated year's start — 365-day
/// years corrected by the elapsed leap days — is taken out. Negative when
/// the estimate overshot into the following year.
pub open spec fn greg_year_rem(t: int) -> int {
    t % (365 * (NS_PER_DAY as int)) - (NS_PER_DAY as int) * leap_days_1900_to(
        1900 + greg_year_offset(t),
    )
}

/// The decomposition recovers the exact calendar fields wherever the year
/// estimate overshoots by less than the one December it can step back
/// over.
pub open spec fn gregorian_in_range(t: int) -> bool {
    greg_year_rem(t) >= -31 * (NS_PER_DAY as int)
}

/// What the calendar decomposition of a TAI total promises: fields in
/// calendar range always, the year on the same side of 1900 as the total,
/// and, on the well-behaved domain, the exact fields that map back to the
/// very total. Together with `lemma_gregorian_tai_ns_injective` this pins
/// the reading of any non-negative in-range total: it is the one valid
/// field tuple denoting that instant.
pub open spec fn gregorian_decomposition_ok(t: int, r: (i32, u8, u8, u8, u8, u8, u32)) -> bool {
    &&& 1 <= r.1 <= 12
    &&& 1 <= r.2 <= 31
    &&& r.3 < 24
    &&& r.4 < 60
    &&& r.5 < 60
    &&& r.6 < 1_000_000_000
    &&& (t >= 0 ==> 1900 <= r.0)
    &&& (t < 0 ==> r.0 < 1900 && r.0 == 1900 + greg_year_offset(t))
    &&& (gregorian_in_range(t) ==> gregorian_tai_ns(
        r.0 as int,
        r.1 as int,
        r.2 as int,
        r.3 as int,
        r.4 as int,
        r.5 as int,
        r.6 as int,
    ) == t && r.2 <= days_in_month_spec(r.0 as int, r.1 as int))
}

/// Euclidean division of a total by a positive step: the remainder is
/// always non-negative.
fn div_rem_total(total: i128, step: i128) -> (r: (i128, i128))
    requires
        0 < step <= max_total_ns(),
        min_total_ns() <= total <= max_total_ns(),
    ensures
        r.0 == (total as int) / (step as int),
        r.1 == (total as int) % (step as int),
        total == r.0 * step + r.1,
        0 <= r.1 < step,
{
    proof {
        lemma_fundamental_div_mod(total as int, step as int);
        lemma_mod_bound(total as int, step as int);
    }
    if total >= 0 {
        let q: u128 = (total as u128) / (step as u128);
        let m: u128 = (total as u128) % (step as u128);
        proof {
            assert((q as int) * (step as int) == (step as int) * (q as int)) by (nonlinear_arith);
        }
        (q as i128, m as i128)
    } else {
        let q0: u128 = ((-total) as u128) / (step as u128);
        let m0: u128 = ((-total) as u128) % (step as u128);
        proof {
            let t = total as int;
            let s = step as int;
            lemma_fundamental_div_mod(-t, s);
            lemma_mod_bound(-t, s);
            if m0 == 0 {
                assert((-(q0 as int)) * s == -(s * (q0 as int))) by (nonlinear_arith);
                assert(t == (-(q0 as int)) * s + 0);
                lemma_fundamental_div_mod_converse(t, s, -(q0 as int), 0);
            } else {
                assert((-(q0 as int) - 1) * s == -(s * (q0 as int)) - s) by (nonlinear_arith);
                assert(t == (-(q0 as int) - 1) * s + (s - m0));
                lemma_fundamental_div_mod_converse(t, s, -(q0 as int) - 1, s - m0);
            }
        }
        if m0 == 0 {
            proof {
                assert((-(q0 as int)) * (step as int) == (step as int) * (-(
                q0 as int))) by (nonlinear_arith);
            }
            (-(q0 as i128), 0)
        } else {
            proof {
                assert((-(q0 as int) - 1) * (step as int) == (step as int) * (-(q0 as int)
                    - 1)) by (nonlinear_arith);
            }
            (-(q0 as i128) - 1, step - (m0 as i128))
        }
    }
}

/// Splits the nanoseconds elapsed within a month into a zero-based day
/// index and the time of day.
fn split_day_time(mf: u64) -> (r: (u8, u8, u8, u8, u32))
    requires
        mf < 31 * NS_PER_DAY,
    ensures
        r.0 < 31,
        r.1 < 24,
        r.2 < 60,
        r.3 < 60,
        r.4 < 1_000_000_000,
        mf == r.0 * NS_PER_DAY + r.1 * NS_PER_HOUR + r.2 * NS_PER_MINUTE + r.3 * NS_PER_SECOND
            + r.4,
        r.0 == mf / NS_PER_DAY,
{
    proof {
        lemma_fundamental_div_mod(mf as int, NS_PER_DAY as int);
        lemma_mod_bound(mf as int, NS_PER_DAY as int);
    }
    let d = mf / NS_PER_DAY;
    let df = mf % NS_PER_DAY;
    proof {
        lemma_fundamental_div_mod(df as int, NS_PER_HOUR as int);
        lemma_mod_bound(df as int, NS_PER_HOUR as int);
    }
    let h = df / NS_PER_HOUR;
    let hf = df % NS_PER_HOUR;
    proof {
        lemma_fundamental_div_mod(hf as int, NS_PER_MINUTE as int);
        lemma_mod_bound(hf as int, NS_PER_MINUTE as int);
    }
    let mi = hf / NS_PER_MINUTE;
    let mif = hf % NS_PER_MINUTE;
    proof {
        lemma_fundamental_div_mod(mif as int, NS_PER_SECOND as int);
        lemma_mod_bound(mif as int, NS_PER_SECOND as int);
    }
    let s = mif / NS_PER_SECOND;
    let ns = mif % NS_PER_SECOND;
    (d as u8, h as u8, mi as u8, s as u8, ns as u32)
}

/// Walks the months of a year of the given leap status until the given
/// time within the year falls inside one; returns that month and what the
/// months before it leave of the time.
#[verifier::spinoff_prover]
fn month_walk(yf: i128, leap: bool) -> (r: (u8, i128))
    requires
        0 <= yf < 365 * (NS_PER_DAY as i128),
    ensures
        1 <= r.0 <= 12,
        r.1 == yf - (NS_PER_DAY as int) * cum_days_before_month(r.0 as int, leap),
        0 <= r.1 < (NS_PER_DAY as int) * crate::calendar::month_len(r.0 as int, leap),
{
    let mut month: u8 = 1;
    let mut stm: i128 = 0;
    loop
        invariant_except_break
            1 <= month <= 12,
            stm == (NS_PER_DAY as int) * cum_days_before_month(month as int, leap),
            stm <= yf,
            0 <= yf < 365 * (NS_PER_DAY as int),
        ensures
            1 <= month <= 12,
            stm == (NS_PER_DAY as int) * cum_days_before_month(month as int, leap),
            stm <= yf,
            yf - stm < (NS_PER_DAY as int) * crate::calendar::month_len(month as int, leap),
        decreases 13 - month,
    {
        let ld: u8 = if leap && month == 2 {
            29
        } else {
            usual_days_per_month(month)
        };
        proof {
            let l = ld as int;
            assert(0 <= l * (NS_PER_DAY as int) <= 31 * (NS_PER_DAY as int)) by (nonlinear_arith)
                requires
                    0 <= l <= 31,
            ;
        }
        let len_ns: i128 = (ld as i128) * (NS_PER_DAY as i128);
        if stm + len_ns > yf {
            break ;
        }
        stm = stm + len_ns;
        proof {
            reveal_with_fuel(cum_days_before_month, 14);
            assert(month < 12);
        }
        month = month + 1;
    }
    (month, yf - stm)
}

/// Decomposes a TAI total in nanoseconds into Gregorian calendar fields:
/// estimate the year from plain 365-day years, repay the elapsed leap
/// days, step back into December when the estimate overshot, then walk
/// the months and split the day.
#[verifier::rlimit(100)]
#[verifier::spinoff_prover]
fn gregorian_decomposition(total: i128) -> (r: (i32, u8, u8, u8, u8, u8, u32))
    requires
        min_total_ns() <= total <= max_total_ns(),
    ensures
        gregorian_decomposition_ok(total as int, r),
{
    let (yo, yf0) = div_rem_total(total, NS_PER_365_DAYS);
    proof {
        assert(-3_300_000 <= yo <= 3_300_000) by (nonlinear_arith)
            requires
                total == yo * 31_536_000_000_000_000 + yf0,
                0 <= yf0 < 31_536_000_000_000_000,
                -103_411_384_320_000_000_000_000 <= total <= 103_411_384_320_000_000_000_000,
        ;
    }
    let year: i64 = 1900 + (yo as i64);
    let mut yf: i128 = yf0;
    let mut yy: i64 = 1900;
    while yy < year
        invariant
            1900 <= yy,
            year > 1900 ==> yy <= year,
            year <= 1900 ==> yy == 1900,
            -3_298_100 <= year <= 3_301_900,
            yf == yf0 - (NS_PER_DAY as int) * leap_days_1900_to(yy as int),
            0 <= leap_days_1900_to(yy as int) <= yy - 1900,
            0 <= yf0 < 365 * (NS_PER_DAY as int),
        decreases (if yy < year { year - yy } else { 0int }),
    {
        if is_leap_year(yy as i32) {
            yf = yf - (NS_PER_DAY as i128);
        }
        yy = yy + 1;
    }
    proof {
        assert(greg_year_offset(total as int) == yo);
        assert(greg_year_rem(total as int) == yf);
        assert((total >= 0) == (yo >= 0)) by (nonlinear_arith)
            requires
                total == yo * 31_536_000_000_000_000 + yf0,
                0 <= yf0 < 31_536_000_000_000_000,
        ;
    }
    if yf < 0 {
        let (q, mf) = div_rem_total(yf, 31 * (NS_PER_DAY as i128));
        let (d_idx, h, mi, s, ns) = split_day_time(mf as u64);
        let ry: i64 = year - 1;
        proof {
            // The year estimate only overshoots once leap days have
            // accumulated, so this branch lies past 1900 and its total is
            // non-negative.
            assert(leap_days_1900_to(year as int) > 0);
            assert(year > 1900);
            assert(total >= 0);
            if gregorian_in_range(total as int) {
                assert(-31 * (NS_PER_DAY as int) <= yf < 0);
                assert(q == -1) by (nonlinear_arith)
                    requires
                        yf == q * (31 * (NS_PER_DAY as int)) + mf,
                        0 <= mf < 31 * (NS_PER_DAY as int),
                        -31 * (NS_PER_DAY as int) <= yf < 0,
                ;
                assert(mf == yf + 31 * (NS_PER_DAY as int));
                reveal_with_fuel(cum_days_before_month, 13);
                assert(cum_days_before_month(12, true) == 335);
                assert(cum_days_before_month(12, false) == 334);
                assert(leap_days_1900_to(year as int) == leap_days_1900_to(ry as int)
                    + if is_leap_year_spec(ry as int) {
                    1int
                } else {
                    0int
                });
                assert(gregorian_tai_ns(
                    ry as int,
                    12,
                    d_idx as int + 1,
                    h as int,
                    mi as int,
                    s as int,
                    ns as int,
                ) == total);
            }
        }
        (ry as i32, 12, d_idx + 1, h, mi, s, ns)
    } else {
        let leap = is_leap_year(year as i32);
        let (month, mf) = month_walk(yf, leap);
        let (d_idx, h, mi, s, ns) = split_day_time(mf as u64);
        proof {
            if gregorian_in_range(total as int) {
                assert((d_idx as int) < crate::calendar::month_len(
                    month as int,
                    leap,
                )) by (nonlinear_arith)
                    requires
                        mf == (d_idx as int) * (NS_PER_DAY as int) + (h as int) * (
                        NS_PER_HOUR as int) + (mi as int) * (NS_PER_MINUTE as int) + (s as int) * (
                        NS_PER_SECOND as int) + (ns as int),
                        0 <= (h as int) * (NS_PER_HOUR as int) + (mi as int) * (
                        NS_PER_MINUTE as int) + (s as int) * (NS_PER_SECOND as int) + (ns as int),
                        mf < (NS_PER_DAY as int) * crate::calendar::month_len(month as int, leap),
                        0 <= d_idx,
                        NS_PER_DAY == 86_400_000_000_000,
                ;
                assert(gregorian_tai_ns(
                    year as int,
                    month as int,
                    d_idx as int + 1,
                    h as int,
                    mi as int,
                    s as int,
                    ns as int,
                ) == total);
            }
        }
        (year as i32, month, d_idx + 1, h, mi, s, ns)
    }
}

/// The TAI total of an epoch carried into the given scale's duration
/// reading, as the calendar accessors print it.
pub open spec fn gregorian_scale_total_ns(t: int, ts: TimeSystem) -> int {
    match ts {
        TimeSystem::ET => clamp_total_ns(t + NS_ET_OFFSET - NS_ET_EPOCH),
        TimeSystem::TAI => t,
        TimeSystem::TT => clamp_total_ns(t + NS_TT_OFFSET),
        TimeSystem::TDB => t,
        TimeSystem::UTC => clamp_total_ns(t - leap_count_spec(t) * NS_PER_SECOND),
    }
}

/// The calendar reading of a non-negative in-range total is pinned: a
/// tuple meeting the decomposition's promise equals any valid reading —
/// fields in range, the second below 60, the year from 1900 on — that
/// denotes the same instant. The exact fields of the calendar accessors
/// therefore follow from their contracts wherever one valid reading is
/// known.
pub proof fn lemma_gregorian_reading_pinned(
    t: int,
    r: (i32, u8, u8, u8, u8, u8, u32),
    y: int,
    m: int,
    d: int,
    h: int,
    mi: int,
    s: int,
    ns: int,
)
    requires
        t >= 0,
        gregorian_in_range(t),
        gregorian_decomposition_ok(t, r),
        1900 <= y,
        1 <= m <= 12,
        1 <= d <= days_in_month_spec(y, m),
        0 <= h < 24,
        0 <= mi < 60,
        0 <= s < 60,
        0 <= ns < 1_000_000_000,
        gregorian_tai_ns(y, m, d, h, mi, s, ns) == t,
    ensures
        r.0 == y && r.1 == m && r.2 == d && r.3 == h && r.4 == mi && r.5 == s && r.6 == ns,
{
    crate::calendar::lemma_gregorian_tai_ns_injective(
        r.0 as int,
        r.1 as int,
        r.2 as int,
        r.3 as int,
        r.4 as int,
        r.5 as int,
        r.6 as int,
        y,
        m,
        d,
        h,
        mi,
        s,
        ns,
    );
}

/// Renders a caller-supplied duration since the 1900 reference as a
/// Gregorian date-time in the ISO-8601 format, with the given scale's
/// name appended. The scale only names the reading: the duration is
/// taken as already converted into that scale, which lets callers print
/// readings — such as a Barycentric Dynamical Time one — whose
/// conversion this library does not compute itself.
pub fn gregorian_str_of_duration(d: Duration, ts: TimeSystem) -> (r: String)
    requires
        d.is_normalized(),
    ensures
        exists|f: (i32, u8, u8, u8, u8, u8, u32)|
            gregorian_decomposition_ok(d.total_ns(), f) && r@ == crate::fmt::gregorian_str_chars(
                f.0 as int,
                f.1 as int,
                f.2 as int,
                f.3 as int,
                f.4 as int,
                f.5 as int,
                f.6 as int,
                crate::fmt::scale_chars(ts),
            ),
{
    proof {
        d.lemma_total_in_range();
    }
    let (y, m, dd, h, mi, s, ns) = gregorian_decomposition(d.total_nanoseconds());
    let out = crate::fmt::gregorian_fields_str(y, m, dd, h, mi, s, ns, ts);
    proof {
        let f = (y, m, dd, h, mi, s, ns);
        assert(gregorian_decomposition_ok(d.total_ns(), f) && out@
            == crate::fmt::gregorian_str_chars(
            f.0 as int,
            f.1 as int,
            f.2 as int,
            f.3 as int,
            f.4 as int,
            f.5 as int,
            f.6 as int,
            crate::fmt::scale_chars(ts),
        ));
    }
    out
}

/// An instant in time, held as the TAI duration elapsed since
/// 1900-01-01T00:00:00 TAI.
#[derive(Copy, Clone, Debug, PartialEq, Eq, Structural, PartialOrd, Ord)]
pub struct Epoch(pub Duration);

impl Epoch {
    /// The TAI nanoseconds since the 1900 reference this instant denotes.
    pub open spec fn total_ns(self) -> int {
        self.0.total_ns()
    }

    /// The invariant inherited from the underlying duration.
    pub open spec fn is_normalized(self) -> bool {
        self.0.is_normalized()
    }

    /// Get the accumulated number of leap seconds up to this Epoch.
    pub fn get_num_leap_seconds(&self) -> (cnt: i32)
        requires
            self.is_normalized(),
        ensures
            cnt == leap_count_spec(self.total_ns()),
            0 <= cnt <= 37,
    {
        let t = self.0.total_nanoseconds();
        let mut cnt: i32 = 0;
        let mut i: usize = 0;
        while i < LEAP_SECOND_ENTRIES
            invariant
                0 <= i <= LEAP_SECOND_ENTRIES,
                t == self.total_ns(),
                cnt == leap_count_upto(t as int, i as int),
                0 <= cnt <= 9 + i,
            decreases LEAP_SECOND_ENTRIES - i,
        {
            let thr = leap_threshold(i);
            if t >= (thr as i128) * (NS_PER_SECOND as i128) {
                proof {
                    if i > 0 {
                        lemma_leap_thresholds_sorted(i as int);
                        lemma_leap_count_upto_bounds(t as int, i as int);
                    }
                }
                if cnt == 0 {
                    cnt = 10;
                } else {
                    cnt = cnt + 1;
                }
            }
            i = i + 1;
        }
        proof {
            lemma_leap_count_bounds(t as int);
        }
        cnt
    }

    /// Creates a new Epoch from a Duration as the time difference between
    /// this instant and the TAI reference epoch.
    pub fn from_tai_duration(duration: Duration) -> (e: Epoch)
        ensures
            e == Epoch(duration),
    {
        Epoch(duration)
    }

    /// Creates a new Epoch from the centuries and nanoseconds elapsed since
    /// the TAI reference epoch.
    pub fn from_tai_parts(centuries: i16, nanoseconds: u64) -> (e: Epoch)
        requires
            nanoseconds < NS_PER_CENTURY,
        ensures
            e.is_normalized(),
            e.0.centuries == centuries,
            e.0.nanoseconds == nanoseconds,
    {
        Epoch(Duration::from_parts(centuries, nanoseconds))
    }

    /// Returns this instant as a Duration past the TAI reference epoch.
    pub fn as_tai_duration(&self) -> (d: Duration)
        ensures
            d == self.0,
    {
        self.0
    }

    /// Returns the centuries and nanoseconds of the underlying TAI
    /// duration.
    pub fn to_tai_parts(&self) -> (r: (i16, u64))
        ensures
            r.0 == self.0.centuries,
            r.1 == self.0.nanoseconds,
    {
        self.0.to_parts()
    }

    /// Shifts this instant into the future by a duration, saturating at the
    /// representable bounds.
    pub fn add_duration(self, duration: Duration) -> (e: Epoch)
        requires
            self.is_normalized(),
            duration.is_normalized(),
        ensures
            e.is_normalized(),
            e.total_ns() == clamp_total_ns(self.total_ns() + duration.total_ns()),
    {
        Epoch(self.0.add(duration))
    }

    /// Shifts this instant into the past by a duration, saturating at the
    /// representable bounds.
    pub fn sub_duration(self, duration: Duration) -> (e: Epoch)
        requires
            self.is_normalized(),
            duration.is_normalized(),
        ensures
            e.is_normalized(),
            e.total_ns() == clamp_total_ns(self.total_ns() - duration.total_ns()),
    {
        Epoch(self.0.sub(duration))
    }

    /// The signed interval from `other` to `self`, saturating at the
    /// representable bounds.
    pub fn sub_epoch(self, other: Epoch) -> (d: Duration)
        requires
            self.is_normalized(),
            other.is_normalized(),
        ensures
            d.is_normalized(),
            d.total_ns() == clamp_total_ns(self.total_ns() - other.total_ns()),
    {
        self.0.sub(other.0)
    }

    /// Days from the 1900 reference to the start of the given calendar
    /// day, signed, as the epoch model counts them.
    #[verifier::spinoff_prover]
    fn gregorian_day_count(year: i32, month: u8, day: u8) -> (r: i64)
        requires
            1 <= month <= 12,
            1 <= day <= 31,
        ensures
            r == gregorian_days_from_1900(year as int, month as int, day as int),
            -800_000_000_000 < r < 800_000_000_000,
    {
        let y64 = year as i64;
        let mut days: i64 = 365 * (y64 - 1900);
        let mut yy: i64 = 1900;
        while yy < y64
            invariant
                1900 <= yy,
                y64 > 1900 ==> yy <= y64,
                y64 <= 1900 ==> yy == 1900,
                -2147483648 <= y64 <= 2147483647,
                days == 365 * (y64 - 1900) + leap_days_1900_to(yy as int),
                0 <= leap_days_1900_to(yy as int) <= yy - 1900,
            decreases (if yy < y64 { y64 - yy } else { 0int }),
        {
            if is_leap_year(yy as i32) {
                days = days + 1;
            }
            yy = yy + 1;
        }
        let mut mdays: i64 = 0;
        let mut mm: u8 = 1;
        while mm < month
            invariant
                1 <= mm <= month,
                month <= 12,
                mdays == cum_days_before_month(mm as int, false),
                0 <= mdays <= 31 * (mm - 1),
            decreases month - mm,
        {
            mdays = mdays + usual_days_per_month(mm) as i64;
            mm = mm + 1;
        }
        let leap = is_leap_year(year);
        if leap && month > 2 {
            mdays = mdays + 1;
        }
        proof {
            crate::calendar::lemma_cum_days_leap(month as int);
        }
        days + mdays + (day as i64 - 1)
    }

    /// Attempts to build an Epoch from the provided Gregorian date and
    /// time, read in the provided time system. The UTC system has its own
    /// constructor, and the TDB system needs the trigonometric correction
    /// that lives with the floating-point callers.
    #[verifier::rlimit(100)]
    #[verifier::spinoff_prover]
    pub fn maybe_from_gregorian(
        year: i32,
        month: u8,
        day: u8,
        hour: u8,
        minute: u8,
        second: u8,
        nanos: u32,
        ts: TimeSystem,
    ) -> (r: Result<Epoch, Errors>)
        requires
            ts != TimeSystem::UTC,
            ts != TimeSystem::TDB,
        ensures
            match r {
                Ok(e) => is_gregorian_valid_spec(
                    year as int,
                    month as int,
                    day as int,
                    hour as int,
                    minute as int,
                    second as int,
                    nanos as int,
                ) && e.is_normalized() && e.total_ns() == clamp_total_ns(
                    gregorian_tai_ns(
                        year as int,
                        month as int,
                        day as int,
                        hour as int,
                        minute as int,
                        second as int,
                        nanos as int,
                    ) + gregorian_offset_ns(ts),
                ),
                Err(err) => err == Errors::Carry && !is_gregorian_valid_spec(
                    year as int,
                    month as int,
                    day as int,
                    hour as int,
                    minute as int,
                    second as int,
                    nanos as int,
                ),
            },
    {
        if !is_gregorian_valid(year, month, day, hour, minute, second, nanos) {
            return Err(Errors::Carry);
        }
        let total_days: i64 = Self::gregorian_day_count(year, month, day);
        proof {
            let td = total_days as int;
            assert(-800_000_000_000 * (NS_PER_DAY as int) < td * (NS_PER_DAY as int)
                < 800_000_000_000 * (NS_PER_DAY as int)) by (nonlinear_arith)
                requires
                    -800_000_000_000 < td < 800_000_000_000,
            ;
            let h = hour as int;
            assert(0 <= h * (NS_PER_HOUR as int) <= 255 * (NS_PER_HOUR as int)) by (nonlinear_arith)
                requires
                    0 <= h <= 255,
            ;
            let mi = minute as int;
            assert(0 <= mi * (NS_PER_MINUTE as int) <= 255 * (
            NS_PER_MINUTE as int)) by (nonlinear_arith)
                requires
                    0 <= mi <= 255,
            ;
            let se = second as int;
            assert(0 <= se * (NS_PER_SECOND as int) <= 255 * (
            NS_PER_SECOND as int)) by (nonlinear_arith)
                requires
                    0 <= se <= 255,
            ;
        }
        let mut total: i128 = (total_days as i128) * (NS_PER_DAY as i128) + (hour as i128) * (
        NS_PER_HOUR as i128) + (minute as i128) * (NS_PER_MINUTE as i128) + (second as i128) * (
        NS_PER_SECOND as i128) + (nanos as i128);
        if second == 60 {
            total = total - (NS_PER_SECOND as i128);
        }
        let adjusted: i128 = match ts {
            TimeSystem::TAI => total,
            TimeSystem::TT => total - NS_TT_OFFSET,
            TimeSystem::ET => total + NS_ET_EPOCH - NS_ET_OFFSET,
            _ => {
                proof {
                    assert(false);
                }
                vstd::pervasive::unreached()
            },
        };
        Ok(Epoch(Duration::from_total_nanoseconds(adjusted)))
    }

    /// Attempts to build an Epoch from the provided Gregorian date and
    /// time in TAI.
    pub fn maybe_from_gregorian_tai(
        year: i32,
        month: u8,
        day: u8,
        hour: u8,
        minute: u8,
        second: u8,
        nanos: u32,
    ) -> (r: Result<Epoch, Errors>)
        ensures
            match r {
                Ok(e) => is_gregorian_valid_spec(
                    year as int,
                    month as int,
                    day as int,
                    hour as int,
                    minute as int,
                    second as int,
                    nanos as int,
                ) && e.is_normalized() && e.total_ns() == clamp_total_ns(
                    gregorian_tai_ns(
                        year as int,
                        month as int,
                        day as int,
                        hour as int,
                        minute as int,
                        second as int,
                        nanos as int,
                    ),
                ),
                Err(err) => err == Errors::Carry && !is_gregorian_valid_spec(
                    year as int,
                    month as int,
                    day as int,
                    hour as int,
                    minute as int,
                    second as int,
                    nanos as int,
                ),
            },
    {
        Self::maybe_from_gregorian(year, month, day, hour, minute, second, nanos, TimeSystem::TAI)
    }

    /// Attempts to build an Epoch from the provided Gregorian date and
    /// time in UTC: the leap seconds accumulated at the stated instant are
    /// added onto the TAI duration.
    pub fn maybe_from_gregorian_utc(
        year: i32,
        month: u8,
        day: u8,
        hour: u8,
        minute: u8,
        second: u8,
        nanos: u32,
    ) -> (r: Result<Epoch, Errors>)
        ensures
            match r {
                Ok(e) => is_gregorian_valid_spec(
                    year as int,
                    month as int,
                    day as int,
                    hour as int,
                    minute as int,
                    second as int,
                    nanos as int,
                ) && e.is_normalized() && e.total_ns() == utc_gregorian_total_ns(
                    year as int,
                    month as int,
                    day as int,
                    hour as int,
                    minute as int,
                    second as int,
                    nanos as int,
                ),
                Err(err) => err == Errors::Carry && !is_gregorian_valid_spec(
                    year as int,
                    month as int,
                    day as int,
                    hour as int,
                    minute as int,
                    second as int,
                    nanos as int,
                ),
            },
    {
        match Self::maybe_from_gregorian_tai(year, month, day, hour, minute, second, nanos) {
            Err(e) => Err(e),
            Ok(if_tai) => {
                let leap_adj: i128 = if second == 60 {
                    NS_PER_SECOND as i128
                } else {
                    0
                };
                let t = if_tai.0.total_nanoseconds();
                let probe = Epoch(Duration::from_total_nanoseconds(t + leap_adj));
                let cnt = probe.get_num_leap_seconds();
                let t_full = probe.0.total_nanoseconds();
                Ok(
                    Epoch(
                        Duration::from_total_nanoseconds(
                            t_full + (cnt as i128) * (NS_PER_SECOND as i128) - leap_adj,
                        ),
                    ),
                )
            },
        }
    }

    /// Builds an Epoch from the provided Gregorian date and time in TAI;
    /// the date must be valid.
    pub fn from_gregorian_tai(
        year: i32,
        month: u8,
        day: u8,
        hour: u8,
        minute: u8,
        second: u8,
        nanos: u32,
    ) -> (e: Epoch)
        requires
            is_gregorian_valid_spec(
                year as int,
                month as int,
                day as int,
                hour as int,
                minute as int,
                second as int,
                nanos as int,
            ),
        ensures
            e.is_normalized(),
            e.total_ns() == clamp_total_ns(
                gregorian_tai_ns(
                    year as int,
                    month as int,
                    day as int,
                    hour as int,
                    minute as int,
                    second as int,
                    nanos as int,
                ),
            ),
    {
        match Self::maybe_from_gregorian_tai(year, month, day, hour, minute, second, nanos) {
            Ok(e) => e,
            Err(_) => {
                proof {
                    assert(false);
                }
                vstd::pervasive::unreached()
            },
        }
    }

    /// Initialize from the Gregorian date at midnight in TAI.
    pub fn from_gregorian_tai_at_midnight(year: i32, month: u8, day: u8) -> (e: Epoch)
        requires
            is_gregorian_valid_spec(year as int, month as int, day as int, 0, 0, 0, 0),
        ensures
            e.is_normalized(),
            e.total_ns() == clamp_total_ns(
                gregorian_tai_ns(year as int, month as int, day as int, 0, 0, 0, 0),
            ),
    {
        Self::from_gregorian_tai(year, month, day, 0, 0, 0, 0)
    }

    /// Initialize from the Gregorian date at noon in TAI.
    pub fn from_gregorian_tai_at_noon(year: i32, month: u8, day: u8) -> (e: Epoch)
        requires
            is_gregorian_valid_spec(year as int, month as int, day as int, 12, 0, 0, 0),
        ensures
            e.is_normalized(),
            e.total_ns() == clamp_total_ns(
                gregorian_tai_ns(year as int, month as int, day as int, 12, 0, 0, 0),
            ),
    {
        Self::from_gregorian_tai(year, month, day, 12, 0, 0, 0)
    }

    /// Initialize from the Gregorian date and time, without nanoseconds,
    /// in TAI.
    pub fn from_gregorian_tai_hms(
        year: i32,
        month: u8,
        day: u8,
        hour: u8,
        minute: u8,
        second: u8,
    ) -> (e: Epoch)
        requires
            is_gregorian_valid_spec(
                year as int,
                month as int,
                day as int,
                hour as int,
                minute as int,
                second as int,
                0,
            ),
        ensures
            e.is_normalized(),
            e.total_ns() == clamp_total_ns(
                gregorian_tai_ns(
                    year as int,
                    month as int,
                    day as int,
                    hour as int,
                    minute as int,
                    second as int,
                    0,
                ),
            ),
    {
        Self::from_gregorian_tai(year, month, day, hour, minute, second, 0)
    }

    /// Builds an Epoch from the provided Gregorian date and time in UTC;
    /// the date must be valid.
    pub fn from_gregorian_utc(
        year: i32,
        month: u8,
        day: u8,
        hour: u8,
        minute: u8,
        second: u8,
        nanos: u32,
    ) -> (e: Epoch)
        requires
            is_gregorian_valid_spec(
                year as int,
                month as int,
                day as int,
                hour as int,
                minute as int,
                second as int,
                nanos as int,
            ),
        ensures
            e.is_normalized(),
            e.total_ns() == utc_gregorian_total_ns(
                year as int,
                month as int,
                day as int,
                hour as int,
                minute as int,
                second as int,
                nanos as int,
            ),
    {
        match Self::maybe_from_gregorian_utc(year, month, day, hour, minute, second, nanos) {
            Ok(e) => e,
            Err(_) => {
                proof {
                    assert(false);
                }
                vstd::pervasive::unreached()
            },
        }
    }

    /// Initialize from the Gregorian date in UTC at midnight.
    pub fn from_gregorian_utc_at_midnight(year: i32, month: u8, day: u8) -> (e: Epoch)
        requires
            is_gregorian_valid_spec(year as int, month as int, day as int, 0, 0, 0, 0),
        ensures
            e.is_normalized(),
            e.total_ns() == utc_gregorian_total_ns(
                year as int,
                month as int,
                day as int,
                0,
                0,
                0,
                0,
            ),
    {
        Self::from_gregorian_utc(year, month, day, 0, 0, 0, 0)
    }

    /// Initialize from the Gregorian date in UTC at noon.
    pub fn from_gregorian_utc_at_noon(year: i32, month: u8, day: u8) -> (e: Epoch)
        requires
            is_gregorian_valid_spec(year as int, month as int, day as int, 12, 0, 0, 0),
        ensures
            e.is_normalized(),
            e.total_ns() == utc_gregorian_total_ns(
                year as int,
                month as int,
                day as int,
                12,
                0,
                0,
                0,
            ),
    {
        Self::from_gregorian_utc(year, month, day, 12, 0, 0, 0)
    }

    /// Initialize from the Gregorian date and time, without nanoseconds,
    /// in UTC.
    pub fn from_gregorian_utc_hms(
        year: i32,
        month: u8,
        day: u8,
        hour: u8,
        minute: u8,
        second: u8,
    ) -> (e: Epoch)
        requires
            is_gregorian_valid_spec(
                year as int,
                month as int,
                day as int,
                hour as int,
                minute as int,
                second as int,
                0,
            ),
        ensures
            e.is_normalized(),
            e.total_ns() == utc_gregorian_total_ns(
                year as int,
                month as int,
                day as int,
                hour as int,
                minute as int,
                second as int,
                0,
            ),
    {
        Self::from_gregorian_utc(year, month, day, hour, minute, second, 0)
    }

    /// Converts an ISO-8601 date-time representation without timezone
    /// offset to an Epoch: `YYYY-MM-DDThh:mm:ss[.f…][ SCALE]`, where the
    /// separator may be `T` or a single non-word character and a missing
    /// scale tag means UTC. A TDB tag needs the trigonometric correction
    /// that lives with the floating-point callers, and is left out here.
    pub fn from_gregorian_str(s: &str) -> (r: Result<Epoch, Errors>)
        requires
            match spec_parse_gregorian(s.spec_bytes()) {
                Ok(t) => t.7 != TimeSystem::TDB,
                Err(_) => true,
            },
        ensures
            match spec_parse_gregorian(s.spec_bytes()) {
                Err(e) => r == Err::<Epoch, Errors>(e),
                Ok(t) => match r {
                    Ok(e) => is_gregorian_valid_spec(
                        t.0 as int,
                        t.1 as int,
                        t.2 as int,
                        t.3 as int,
                        t.4 as int,
                        t.5 as int,
                        t.6 as int,
                    ) && e.is_normalized() && e.total_ns() == (if t.7 == TimeSystem::UTC {
                        utc_gregorian_total_ns(
                            t.0 as int,
                            t.1 as int,
                            t.2 as int,
                            t.3 as int,
                            t.4 as int,
                            t.5 as int,
                            t.6 as int,
                        )
                    } else {
                        clamp_total_ns(
                            gregorian_tai_ns(
                                t.0 as int,
                                t.1 as int,
                                t.2 as int,
                                t.3 as int,
                                t.4 as int,
                                t.5 as int,
                                t.6 as int,
                            ) + gregorian_offset_ns(t.7),
                        )
                    }),
                    Err(err) => err == Errors::Carry && !is_gregorian_valid_spec(
                        t.0 as int,
                        t.1 as int,
                        t.2 as int,
                        t.3 as int,
                        t.4 as int,
                        t.5 as int,
                        t.6 as int,
                    ),
                },
            },
    {
        match parse_gregorian(s) {
            Err(e) => Err(e),
            Ok((year, month, day, hour, minute, second, nanos, system)) => {
                match system {
                    TimeSystem::UTC => Self::maybe_from_gregorian_utc(
                        year,
                        month,
                        day,
                        hour,
                        minute,
                        second,
                        nanos,
                    ),
                    _ => Self::maybe_from_gregorian(
                        year,
                        month,
                        day,
                        hour,
                        minute,
                        second,
                        nanos,
                        system,
                    ),
                }
            },
        }
    }

    /// Returns this time as a Duration past the 1900 reference counted in
    /// UTC: the TAI duration less the accumulated leap seconds.
    pub fn as_utc_duration(&self) -> (d: Duration)
        requires
            self.is_normalized(),
        ensures
            d.is_normalized(),
            d.total_ns() == clamp_total_ns(
                self.total_ns() - leap_count_spec(self.total_ns()) * NS_PER_SECOND,
            ),
    {
        let cnt = self.get_num_leap_seconds();
        let t = self.0.total_nanoseconds();
        Duration::from_total_nanoseconds(t - (cnt as i128) * (NS_PER_SECOND as i128))
    }

    /// Builds an Epoch from a duration counted in UTC since the 1900
    /// reference: the leap seconds accumulated at that duration read as if
    /// it were TAI are added back in.
    pub fn from_utc_duration(utc: Duration) -> (e: Epoch)
        requires
            utc.is_normalized(),
        ensures
            e.is_normalized(),
            e.total_ns() == clamp_total_ns(
                utc.total_ns() + leap_count_spec(utc.total_ns()) * NS_PER_SECOND,
            ),
    {
        let as_if_tai = Epoch(utc);
        let cnt = as_if_tai.get_num_leap_seconds();
        let t = utc.total_nanoseconds();
        Epoch(Duration::from_total_nanoseconds(t + (cnt as i128) * (NS_PER_SECOND as i128)))
    }

    /// Returns the Duration since the UNIX epoch, 1970-01-01T00:00:00 UTC.
    pub fn as_unix_duration(&self) -> (d: Duration)
        requires
            self.is_normalized(),
        ensures
            d.is_normalized(),
            d.total_ns() == clamp_total_ns(
                self.total_ns() - leap_count_spec(self.total_ns()) * NS_PER_SECOND - NS_UNIX_REF,
            ),
    {
        let cnt = self.get_num_leap_seconds();
        let t = self.0.total_nanoseconds();
        Duration::from_total_nanoseconds(t - (cnt as i128) * (NS_PER_SECOND as i128) - NS_UNIX_REF)
    }

    /// Builds an Epoch from a duration counted in UTC since the UNIX epoch,
    /// 1970-01-01T00:00:00 UTC.
    pub fn from_unix_duration(unix: Duration) -> (e: Epoch)
        requires
            unix.is_normalized(),
        ensures
            e.is_normalized(),
            ({
                let utc = clamp_total_ns(unix.total_ns() + NS_UNIX_REF);
                e.total_ns() == clamp_total_ns(utc + leap_count_spec(utc) * NS_PER_SECOND)
            }),
    {
        let utc = Duration::from_total_nanoseconds(unix.total_nanoseconds() + NS_UNIX_REF);
        Epoch::from_utc_duration(utc)
    }

    /// Returns this time as a Duration in Terrestrial Time past the 1900
    /// reference: TAI plus exactly 32.184 s.
    pub fn as_tt_duration(&self) -> (d: Duration)
        requires
            self.is_normalized(),
        ensures
            d.is_normalized(),
            d.total_ns() == clamp_total_ns(self.total_ns() + NS_TT_OFFSET),
    {
        Duration::from_total_nanoseconds(self.0.total_nanoseconds() + NS_TT_OFFSET)
    }

    /// Builds an Epoch from a duration counted in Terrestrial Time since
    /// the 1900 reference.
    pub fn from_tt_duration(tt: Duration) -> (e: Epoch)
        requires
            tt.is_normalized(),
        ensures
            e.is_normalized(),
            e.total_ns() == clamp_total_ns(tt.total_ns() - NS_TT_OFFSET),
    {
        Epoch(Duration::from_total_nanoseconds(tt.total_nanoseconds() - NS_TT_OFFSET))
    }

    /// Returns the duration past J2000 counted in Terrestrial Time.
    pub fn as_tt_since_j2k(&self) -> (d: Duration)
        requires
            self.is_normalized(),
        ensures
            d.is_normalized(),
            d.total_ns() == clamp_total_ns(self.total_ns() + NS_TT_OFFSET - NS_ET_EPOCH),
    {
        Duration::from_total_nanoseconds(self.0.total_nanoseconds() + NS_TT_OFFSET - NS_ET_EPOCH)
    }

    /// Returns this time as a Duration in Ephemeris Time past J2000: TAI
    /// plus the fixed 32.184935 s offset, less the J2000 reference.
    pub fn as_et_duration(&self) -> (d: Duration)
        requires
            self.is_normalized(),
        ensures
            d.is_normalized(),
            d.total_ns() == clamp_total_ns(self.total_ns() + NS_ET_OFFSET - NS_ET_EPOCH),
    {
        Duration::from_total_nanoseconds(self.0.total_nanoseconds() + NS_ET_OFFSET - NS_ET_EPOCH)
    }

    /// Builds an Epoch from a duration counted in Ephemeris Time past
    /// J2000.
    pub fn from_et_duration(et: Duration) -> (e: Epoch)
        requires
            et.is_normalized(),
        ensures
            e.is_normalized(),
            e.total_ns() == clamp_total_ns(et.total_ns() + NS_ET_EPOCH - NS_ET_OFFSET),
    {
        Epoch(Duration::from_total_nanoseconds(et.total_nanoseconds() + NS_ET_EPOCH - NS_ET_OFFSET))
    }

    /// Returns this time as a Duration past the GPS time epoch,
    /// 1980-01-06T00:00:00 UTC.
    pub fn as_gpst_duration(&self) -> (d: Duration)
        requires
            self.is_normalized(),
        ensures
            d.is_normalized(),
            d.total_ns() == clamp_total_ns(self.total_ns() - NS_GPST_OFFSET),
    {
        Duration::from_total_nanoseconds(self.0.total_nanoseconds() - NS_GPST_OFFSET)
    }

    /// Initialize an Epoch from the number of nanoseconds since the GPS
    /// time epoch, 1980-01-06T00:00:00 UTC.
    pub fn from_gpst_nanoseconds(nanoseconds: u64) -> (e: Epoch)
        ensures
            e.is_normalized(),
            e.total_ns() == nanoseconds + NS_GPST_OFFSET,
    {
        Epoch(Duration::from_total_nanoseconds((nanoseconds as i128) + NS_GPST_OFFSET))
    }

    /// Returns the nanoseconds past the GPS time epoch, or an overflow
    /// error when this instant lies a century or more past it, or before
    /// it.
    pub fn as_gpst_nanoseconds(&self) -> (r: Result<u64, Errors>)
        requires
            self.is_normalized(),
        ensures
            match r {
                Ok(n) => 0 <= self.total_ns() - NS_GPST_OFFSET < NS_PER_CENTURY && n
                    == self.total_ns() - NS_GPST_OFFSET,
                Err(e) => e == Errors::Overflow && !(0 <= self.total_ns() - NS_GPST_OFFSET
                    < NS_PER_CENTURY),
            },
    {
        let dur = self.as_gpst_duration();
        let (centuries, nanoseconds) = dur.to_parts();
        if centuries != 0 {
            Err(Errors::Overflow)
        } else {
            Ok(nanoseconds)
        }
    }

    /// Returns this epoch as a duration past the Julian Day origin, in TAI.
    pub fn as_jde_tai_duration(&self) -> (d: Duration)
        requires
            self.is_normalized(),
        ensures
            d.is_normalized(),
            d.total_ns() == clamp_total_ns(self.total_ns() + NS_J1900_OFFSET + NS_MJD_OFFSET),
    {
        Duration::from_total_nanoseconds(
            self.0.total_nanoseconds() + NS_J1900_OFFSET + NS_MJD_OFFSET,
        )
    }

    /// Returns this epoch as a duration past the Julian Day origin, in UTC.
    pub fn as_jde_utc_duration(&self) -> (d: Duration)
        requires
            self.is_normalized(),
        ensures
            d.is_normalized(),
            d.total_ns() == clamp_total_ns(
                self.total_ns() - leap_count_spec(self.total_ns()) * NS_PER_SECOND
                    + NS_J1900_OFFSET + NS_MJD_OFFSET,
            ),
    {
        let cnt = self.get_num_leap_seconds();
        Duration::from_total_nanoseconds(
            self.0.total_nanoseconds() - (cnt as i128) * (NS_PER_SECOND as i128) + NS_J1900_OFFSET
                + NS_MJD_OFFSET,
        )
    }

    /// Returns this epoch as a duration past the Julian Day origin, in
    /// Terrestrial Time.
    pub fn as_jde_tt_duration(&self) -> (d: Duration)
        requires
            self.is_normalized(),
        ensures
            d.is_normalized(),
            d.total_ns() == clamp_total_ns(
                self.total_ns() + NS_TT_OFFSET + NS_J1900_OFFSET + NS_MJD_OFFSET,
            ),
    {
        Duration::from_total_nanoseconds(
            self.0.total_nanoseconds() + NS_TT_OFFSET + NS_J1900_OFFSET + NS_MJD_OFFSET,
        )
    }

    /// Returns this epoch as a duration past the Modified Julian Day
    /// origin, in Terrestrial Time.
    pub fn as_mjd_tt_duration(&self) -> (d: Duration)
        requires
            self.is_normalized(),
        ensures
            d.is_normalized(),
            d.total_ns() == clamp_total_ns(self.total_ns() + NS_TT_OFFSET + NS_J1900_OFFSET),
    {
        Duration::from_total_nanoseconds(
            self.0.total_nanoseconds() + NS_TT_OFFSET + NS_J1900_OFFSET,
        )
    }

    /// Returns this epoch as a duration past the Julian Day origin, in
    /// Ephemeris Time: the TT Julian duration plus the remaining 935 µs of
    /// the ET offset.
    pub fn as_jde_et_duration(&self) -> (d: Duration)
        requires
            self.is_normalized(),
        ensures
            d.is_normalized(),
            d.total_ns() == clamp_total_ns(
                self.total_ns() + NS_ET_OFFSET + NS_J1900_OFFSET + NS_MJD_OFFSET,
            ),
    {
        Duration::from_total_nanoseconds(
            self.0.total_nanoseconds() + NS_ET_OFFSET + NS_J1900_OFFSET + NS_MJD_OFFSET,
        )
    }

    /// Returns the duration since J2000 counted in Ephemeris Time.
    pub fn as_et_duration_since_j2000(&self) -> (d: Duration)
        requires
            self.is_normalized(),
        ensures
            d.is_normalized(),
            d.total_ns() == clamp_total_ns(
                self.total_ns() + NS_ET_OFFSET + NS_J1900_OFFSET - NS_J2000_OFFSET,
            ),
    {
        Duration::from_total_nanoseconds(
            self.0.total_nanoseconds() + NS_ET_OFFSET + NS_J1900_OFFSET - NS_J2000_OFFSET,
        )
    }

    /// Converts the Epoch to its Gregorian TAI equivalent:
    /// `(year, month, day, hour, minute, second, nanoseconds)`.
    pub fn as_gregorian_tai(&self) -> (r: (i32, u8, u8, u8, u8, u8, u32))
        requires
            self.is_normalized(),
        ensures
            gregorian_decomposition_ok(self.total_ns(), r),
    {
        proof {
            self.0.lemma_total_in_range();
        }
        gregorian_decomposition(self.0.total_nanoseconds())
    }

    /// Converts the Epoch to its Gregorian UTC equivalent:
    /// `(year, month, day, hour, minute, second, nanoseconds)`. The
    /// leap second literal `60` is never recovered: both it and the
    /// following `00` read as the start of the next minute.
    pub fn as_gregorian_utc(&self) -> (r: (i32, u8, u8, u8, u8, u8, u32))
        requires
            self.is_normalized(),
        ensures
            gregorian_decomposition_ok(
                clamp_total_ns(self.total_ns() - leap_count_spec(self.total_ns()) * NS_PER_SECOND),
                r,
            ),
    {
        let utc = self.as_utc_duration();
        proof {
            utc.lemma_total_in_range();
        }
        gregorian_decomposition(utc.total_nanoseconds())
    }

    /// Converts the Epoch to Gregorian in the provided time system, in the
    /// ISO-8601 format with the system's name appended. The TDB reading
    /// needs the trigonometric correction that lives with the
    /// floating-point callers.
    pub fn as_gregorian_str(&self, ts: TimeSystem) -> (r: String)
        requires
            self.is_normalized(),
            ts != TimeSystem::TDB,
        ensures
            exists|f: (i32, u8, u8, u8, u8, u8, u32)|
                gregorian_decomposition_ok(gregorian_scale_total_ns(self.total_ns(), ts), f)
                    && r@ == crate::fmt::gregorian_str_chars(
                    f.0 as int,
                    f.1 as int,
                    f.2 as int,
                    f.3 as int,
                    f.4 as int,
                    f.5 as int,
                    f.6 as int,
                    crate::fmt::scale_chars(ts),
                ),
    {
        let dur: Duration = match ts {
            TimeSystem::ET => self.as_et_duration(),
            TimeSystem::TAI => self.0,
            TimeSystem::TT => self.as_tt_duration(),
            TimeSystem::UTC => self.as_utc_duration(),
            TimeSystem::TDB => {
                proof {
                    assert(false);
                }
                vstd::pervasive::unreached()
            },
        };
        proof {
            assert(dur.total_ns() == gregorian_scale_total_ns(self.total_ns(), ts));
        }
        gregorian_str_of_duration(dur, ts)
    }

    /// Converts the Epoch to UTC Gregorian in the ISO-8601 format.
    pub fn as_gregorian_utc_str(&self) -> (r: String)
        requires
            self.is_normalized(),
        ensures
            exists|f: (i32, u8, u8, u8, u8, u8, u32)|
                gregorian_decomposition_ok(
                    gregorian_scale_total_ns(self.total_ns(), TimeSystem::UTC),
                    f,
                ) && r@ == crate::fmt::gregorian_str_chars(
                    f.0 as int,
                    f.1 as int,
                    f.2 as int,
                    f.3 as int,
                    f.4 as int,
                    f.5 as int,
                    f.6 as int,
                    crate::fmt::scale_chars(TimeSystem::UTC),
                ),
    {
        self.as_gregorian_str(TimeSystem::UTC)
    }

    /// Converts the Epoch to TAI Gregorian in the ISO-8601 format with
    /// " TAI" appended.
    pub fn as_gregorian_tai_str(&self) -> (r: String)
        requires
            self.is_normalized(),
        ensures
            exists|f: (i32, u8, u8, u8, u8, u8, u32)|
                gregorian_decomposition_ok(
                    gregorian_scale_total_ns(self.total_ns(), TimeSystem::TAI),
                    f,
                ) && r@ == crate::fmt::gregorian_str_chars(
                    f.0 as int,
                    f.1 as int,
                    f.2 as int,
                    f.3 as int,
                    f.4 as int,
                    f.5 as int,
                    f.6 as int,
                    crate::fmt::scale_chars(TimeSystem::TAI),
                ),
    {
        self.as_gregorian_str(TimeSystem::TAI)
    }

    /// Floors this epoch to the closest multiple of the provided duration,
    /// counted from the TAI reference.
    pub fn floor(&self, duration: Duration) -> (e: Epoch)
        requires
            self.is_normalized(),
            duration.is_normalized(),
            duration.total_ns() > 0,
        ensures
            e.is_normalized(),
            e.total_ns() == clamp_total_ns(
                self.total_ns() - self.total_ns() % duration.total_ns(),
            ),
    {
        Epoch(self.0.floor(duration))
    }

    /// Ceils this epoch to the closest multiple of the provided duration,
    /// counted from the TAI reference.
    pub fn ceil(&self, duration: Duration) -> (e: Epoch)
        requires
            self.is_normalized(),
            duration.is_normalized(),
            duration.total_ns() > 0,
        ensures
            e.is_normalized(),
            e.total_ns() == clamp_total_ns(
                crate::duration::ceil_total_ns(self.total_ns(), duration.total_ns()),
            ),
    {
        Epoch(self.0.ceil(duration))
    }

    /// Rounds this epoch to the nearest multiple of the provided duration,
    /// counted from the TAI reference, ties upward.
    pub fn round(&self, duration: Duration) -> (e: Epoch)
        requires
            self.is_normalized(),
            duration.is_normalized(),
            duration.total_ns() > 0,
        ensures
            e.is_normalized(),
            e.total_ns() == clamp_total_ns(
                crate::duration::round_total_ns(self.total_ns(), duration.total_ns()),
            ),
    {
        Epoch(self.0.round(duration))
    }
}

/// Subtracting an epoch from itself always yields the zero duration: `r`
/// is any value meeting `sub_epoch`'s contract for `e - e`.
pub proof fn lemma_epoch_sub_self_is_zero(e: Epoch, r: Duration)
    requires
        e.is_normalized(),
        r.is_normalized(),
        r.total_ns() == clamp_total_ns(e.total_ns() - e.total_ns()),
    ensures
        r == (Duration { centuries: 0, nanoseconds: 0 }),
{
    crate::duration::lemma_sub_self_is_zero(e.0, r);
}

/// Adding a duration to an epoch and subtracting the epoch again gives
/// the duration back, whenever the sum does not saturate: `sum` and
/// `diff` are any values meeting the contracts of `add_duration` and
/// `sub_epoch`.
pub proof fn lemma_add_then_sub_recovers(e: Epoch, d: Duration, sum: Epoch, diff: Duration)
    requires
        e.is_normalized(),
        d.is_normalized(),
        sum.is_normalized(),
        diff.is_normalized(),
        min_total_ns() <= e.total_ns() + d.total_ns() <= max_total_ns(),
        sum.total_ns() == clamp_total_ns(e.total_ns() + d.total_ns()),
        diff.total_ns() == clamp_total_ns(sum.total_ns() - e.total_ns()),
    ensures
        diff == d,
{
    d.lemma_total_in_range();
    Duration::lemma_total_injective(diff, d);
}

/// The interval from `b` to `a` is the negation of the interval from `a`
/// to `b`, whenever neither difference saturates: `d_ab`, `d_ba` and `n`
/// are any values meeting the contracts of `sub_epoch` on both orders and
/// of `neg` on the second.
pub proof fn lemma_sub_antisymmetric(a: Epoch, b: Epoch, d_ab: Duration, d_ba: Duration, n: Duration)
    requires
        a.is_normalized(),
        b.is_normalized(),
        d_ab.is_normalized(),
        d_ba.is_normalized(),
        n.is_normalized(),
        min_total_ns() <= a.total_ns() - b.total_ns() <= max_total_ns(),
        min_total_ns() <= b.total_ns() - a.total_ns() <= max_total_ns(),
        d_ab.total_ns() == clamp_total_ns(a.total_ns() - b.total_ns()),
        d_ba.total_ns() == clamp_total_ns(b.total_ns() - a.total_ns()),
        n.total_ns() == clamp_total_ns(-d_ba.total_ns()),
    ensures
        d_ab == n,
{
    Duration::lemma_total_injective(d_ab, n);
}

/// The TAI duration round trip is the identity: rebuilding an epoch from
/// its own TAI duration gives the epoch back, bit for bit.
pub proof fn lemma_tai_round_trip(e: Epoch)
    ensures
        Epoch(e.0) == e,
{
}

/// The GPST nanosecond round trip is the identity wherever the accessor
/// succeeds: `n` is any value `as_gpst_nanoseconds` can return in its
/// `Ok` case, and `r` any value meeting `from_gpst_nanoseconds`'s
/// contract on it.
pub proof fn lemma_gpst_round_trip(e: Epoch, n: u64, r: Epoch)
    requires
        e.is_normalized(),
        r.is_normalized(),
        0 <= e.total_ns() - NS_GPST_OFFSET < NS_PER_CENTURY,
        n == e.total_ns() - NS_GPST_OFFSET,
        r.total_ns() == n + NS_GPST_OFFSET,
    ensures
        r == e,
{
    Duration::lemma_total_injective(r.0, e.0);
}

/// Whether the leap-second count an epoch sees still holds at the UTC
/// reading of the same epoch. It fails only inside the few seconds right
/// after each insertion, where a UTC reading taken as if it were TAI
/// falls before the insertion it has already absorbed.
pub open spec fn leap_count_stable(t: int) -> bool {
    leap_count_spec(t - leap_count_spec(t) * NS_PER_SECOND) == leap_count_spec(t)
}

/// The UTC round trip is the identity wherever the leap-second count is
/// stable and the UTC reading does not saturate: `u` is any value meeting
/// `as_utc_duration`'s contract on `e`, and `r` any value meeting
/// `from_utc_duration`'s contract on `u`.
pub proof fn lemma_utc_round_trip(e: Epoch, u: Duration, r: Epoch)
    requires
        e.is_normalized(),
        u.is_normalized(),
        r.is_normalized(),
        leap_count_stable(e.total_ns()),
        min_total_ns() <= e.total_ns() - leap_count_spec(e.total_ns()) * NS_PER_SECOND,
        u.total_ns() == clamp_total_ns(
            e.total_ns() - leap_count_spec(e.total_ns()) * NS_PER_SECOND,
        ),
        r.total_ns() == clamp_total_ns(
            u.total_ns() + leap_count_spec(u.total_ns()) * NS_PER_SECOND,
        ),
    ensures
        r == e,
{
    lemma_leap_count_bounds(e.total_ns());
    e.0.lemma_total_in_range();
    Duration::lemma_total_injective(r.0, e.0);
}

/// The UNIX round trip is the identity under the same stability
/// condition: `u` is any value meeting `as_unix_duration`'s contract on
/// `e`, and `r` any value meeting `from_unix_duration`'s contract on `u`.
pub proof fn lemma_unix_round_trip(e: Epoch, u: Duration, r: Epoch)
    requires
        e.is_normalized(),
        u.is_normalized(),
        r.is_normalized(),
        leap_count_stable(e.total_ns()),
        min_total_ns() <= e.total_ns() - leap_count_spec(e.total_ns()) * NS_PER_SECOND
            - NS_UNIX_REF,
        u.total_ns() == clamp_total_ns(
            e.total_ns() - leap_count_spec(e.total_ns()) * NS_PER_SECOND - NS_UNIX_REF,
        ),
        r.total_ns() == ({
            let utc = clamp_total_ns(u.total_ns() + NS_UNIX_REF);
            clamp_total_ns(utc + leap_count_spec(utc) * NS_PER_SECOND)
        }),
    ensures
        r == e,
{
    lemma_leap_count_bounds(e.total_ns());
    e.0.lemma_total_in_range();
    Duration::lemma_total_injective(r.0, e.0);
}

/// The TT round trip is exact at the duration level: `d` is any value
/// meeting `as_tt_duration`'s contract on `e`, and `r` any value meeting
/// `from_tt_duration`'s contract on `d`, with the TT reading in range.
pub proof fn lemma_tt_round_trip(e: Epoch, d: Duration, r: Epoch)
    requires
        e.is_normalized(),
        d.is_normalized(),
        r.is_normalized(),
        e.total_ns() + NS_TT_OFFSET <= max_total_ns(),
        d.total_ns() == clamp_total_ns(e.total_ns() + NS_TT_OFFSET),
        r.total_ns() == clamp_total_ns(d.total_ns() - NS_TT_OFFSET),
    ensures
        r == e,
{
    e.0.lemma_total_in_range();
    Duration::lemma_total_injective(r.0, e.0);
}

/// The ET round trip is exact at the duration level: `d` is any value
/// meeting `as_et_duration`'s contract on `e`, and `r` any value meeting
/// `from_et_duration`'s contract on `d`, with the ET reading in range.
pub proof fn lemma_et_round_trip(e: Epoch, d: Duration, r: Epoch)
    requires
        e.is_normalized(),
        d.is_normalized(),
        r.is_normalized(),
        min_total_ns() <= e.total_ns() + NS_ET_OFFSET - NS_ET_EPOCH,
        d.total_ns() == clamp_total_ns(e.total_ns() + NS_ET_OFFSET - NS_ET_EPOCH),
        r.total_ns() == clamp_total_ns(d.total_ns() + NS_ET_EPOCH - NS_ET_OFFSET),
    ensures
        r == e,
{
    e.0.lemma_total_in_range();
    Duration::lemma_total_injective(r.0, e.0);
}

} // verus!
