//! The Gregorian calendar rules: leap years, month lengths, the years that
//! carried a leap second, and validity of a calendar date-time.

use crate::duration::{NS_PER_DAY, NS_PER_HOUR, NS_PER_MINUTE, NS_PER_SECOND};
use vstd::arithmetic::div_mod::lemma_mod_multiples_vanish;
use vstd::prelude::*;

verus! {

/// The Gregorian leap-year rule: divisible by 4 and not by 100, or
/// divisible by 400.
pub open spec fn is_leap_year_spec(y: int) -> bool {
    (y % 4 == 0 && y % 100 != 0) || y % 400 == 0
}

/// Divisibility is unchanged by negation, for any positive divisor.
proof fn lemma_neg_divisible(x: int, m: int)
    requires
        0 < m,
    ensures
        (x % m == 0) <==> ((-x) % m == 0),
{
    let q = x / m;
    vstd::arithmetic::div_mod::lemma_fundamental_div_mod(x, m);
    vstd::arithmetic::div_mod::lemma_mod_bound(x, m);
    if x % m == 0 {
        assert(m * (-q) == -(m * q)) by (nonlinear_arith);
        assert(-x == m * (-q) + 0);
        lemma_mod_multiples_vanish(-q, 0, m);
        vstd::arithmetic::div_mod::lemma_small_mod(0, m as nat);
    } else {
        let r = x % m;
        assert(m * (-q - 1) == -(m * q) - m) by (nonlinear_arith);
        assert(-x == m * (-q - 1) + (m - r));
        lemma_mod_multiples_vanish(-q - 1, m - r, m);
        vstd::arithmetic::div_mod::lemma_small_mod((m - r) as nat, m as nat);
    }
}

/// Whether the given year is a Gregorian leap year.
pub fn is_leap_year(year: i32) -> (r: bool)
    ensures
        r == is_leap_year_spec(year as int),
{
    let y = year as i64;
    let m: u64 = if y >= 0 {
        y as u64
    } else {
        (-y) as u64
    };
    proof {
        lemma_neg_divisible(y as int, 4);
        lemma_neg_divisible(y as int, 100);
        lemma_neg_divisible(y as int, 400);
    }
    (m % 4 == 0 && m % 100 != 0) || m % 400 == 0
}

/// How many leap years lie in `[1900, y)`; zero when `y` is not past 1900.
pub open spec fn leap_days_1900_to(y: int) -> int
    decreases (if y <= 1900 { 0int } else { y - 1900 }),
{
    if y <= 1900 {
        0
    } else {
        leap_days_1900_to(y - 1) + if is_leap_year_spec(y - 1) {
            1int
        } else {
            0int
        }
    }
}

/// How many leap years lie in the window `[a, a + n)`.
pub open spec fn leap_years_in(a: int, n: nat) -> int
    decreases n,
{
    if n == 0 {
        0
    } else {
        (if is_leap_year_spec(a) {
            1int
        } else {
            0int
        }) + leap_years_in(a + 1, (n - 1) as nat)
    }
}

/// Extending the window by one year on the right adds that year's count.
proof fn lemma_leap_years_in_unfold_right(a: int, n: nat)
    ensures
        leap_years_in(a, n + 1) == leap_years_in(a, n) + (if is_leap_year_spec(a + n) {
            1int
        } else {
            0int
        }),
    decreases n,
{
    if n > 0 {
        lemma_leap_years_in_unfold_right(a + 1, (n - 1) as nat);
        assert(leap_years_in(a, n + 1) == (if is_leap_year_spec(a) {
            1int
        } else {
            0int
        }) + leap_years_in(a + 1, n));
    } else {
        assert(leap_years_in(a + 1, 0) == 0);
        assert(leap_years_in(a, 1) == (if is_leap_year_spec(a) {
            1int
        } else {
            0int
        }) + leap_years_in(a + 1, 0));
    }
}

/// The leap-year pattern repeats every 400 years.
proof fn lemma_leap_year_periodic(a: int)
    ensures
        is_leap_year_spec(a + 400) == is_leap_year_spec(a),
{
    lemma_mod_multiples_vanish(100, a, 4);
    lemma_mod_multiples_vanish(4, a, 100);
    lemma_mod_multiples_vanish(1, a, 400);
}

/// Sliding a 400-year window by one year keeps its leap-year count.
proof fn lemma_leap_years_in_slide(a: int)
    ensures
        leap_years_in(a + 1, 400) == leap_years_in(a, 400),
{
    lemma_leap_years_in_unfold_right(a, 400);
    lemma_leap_year_periodic(a);
}

/// Splitting a window in two splits its count.
proof fn lemma_leap_years_in_concat(a: int, m: nat, n: nat)
    ensures
        leap_years_in(a, m + n) == leap_years_in(a, m) + leap_years_in(a + m, n),
    decreases m,
{
    if m > 0 {
        lemma_leap_years_in_concat(a + 1, (m - 1) as nat, n);
    }
}

/// A half-century of years holds this many leap years, for the four
/// 50-year blocks that make up the two centuries from 1600.
#[verifier::rlimit(100)]
#[verifier::spinoff_prover]
proof fn lemma_leap_years_base_1600s()
    ensures
        leap_years_in(1600, 50) == 13,
        leap_years_in(1650, 50) == 12,
        leap_years_in(1700, 50) == 12,
        leap_years_in(1750, 50) == 12,
{
    reveal_with_fuel(leap_years_in, 51);
    assert(leap_years_in(1600, 50) == 13);
    assert(leap_years_in(1650, 50) == 12);
    assert(leap_years_in(1700, 50) == 12);
    assert(leap_years_in(1750, 50) == 12);
}

/// The same, for the two centuries from 1800.
#[verifier::rlimit(100)]
#[verifier::spinoff_prover]
proof fn lemma_leap_years_base_1800s()
    ensures
        leap_years_in(1800, 50) == 12,
        leap_years_in(1850, 50) == 12,
        leap_years_in(1900, 50) == 12,
        leap_years_in(1950, 50) == 12,
{
    reveal_with_fuel(leap_years_in, 51);
    assert(leap_years_in(1800, 50) == 12);
    assert(leap_years_in(1850, 50) == 12);
    assert(leap_years_in(1900, 50) == 12);
    assert(leap_years_in(1950, 50) == 12);
}

/// The four centuries starting at 1600 hold 25, 24, 24 and 24 leap years.
proof fn lemma_leap_years_base_centuries()
    ensures
        leap_years_in(1600, 100) == 25,
        leap_years_in(1700, 100) == 24,
        leap_years_in(1800, 100) == 24,
        leap_years_in(1900, 100) == 24,
{
    lemma_leap_years_base_1600s();
    lemma_leap_years_base_1800s();
    lemma_leap_years_in_concat(1600, 50, 50);
    lemma_leap_years_in_concat(1700, 50, 50);
    lemma_leap_years_in_concat(1800, 50, 50);
    lemma_leap_years_in_concat(1900, 50, 50);
}

/// Every block of 400 consecutive years holds exactly 97 leap years.
pub proof fn lemma_leap_years_per_400_block(a: int)
    ensures
        leap_years_in(a, 400) == 97,
    decreases (if a >= 1600 { a - 1600 } else { 1600 - a }),
{
    if a == 1600 {
        lemma_leap_years_base_centuries();
        lemma_leap_years_in_concat(1600, 100, 300);
        lemma_leap_years_in_concat(1700, 100, 200);
        lemma_leap_years_in_concat(1800, 100, 100);
    } else if a > 1600 {
        lemma_leap_years_per_400_block(a - 1);
        lemma_leap_years_in_slide(a - 1);
    } else {
        lemma_leap_years_per_400_block(a + 1);
        lemma_leap_years_in_slide(a);
    }
}

/// The length of the given month in a non-leap year.
pub open spec fn usual_days_in_month(m: int) -> int {
    if m == 1 {
        31
    } else if m == 2 {
        28
    } else if m == 3 {
        31
    } else if m == 4 {
        30
    } else if m == 5 {
        31
    } else if m == 6 {
        30
    } else if m == 7 {
        31
    } else if m == 8 {
        31
    } else if m == 9 {
        30
    } else if m == 10 {
        31
    } else if m == 11 {
        30
    } else {
        31
    }
}

/// The length of the given month in a non-leap year.
pub fn usual_days_per_month(m: u8) -> (d: u8)
    requires
        1 <= m <= 12,
    ensures
        d == usual_days_in_month(m as int),
{
    if m == 1 {
        31
    } else if m == 2 {
        28
    } else if m == 3 {
        31
    } else if m == 4 {
        30
    } else if m == 5 {
        31
    } else if m == 6 {
        30
    } else if m == 7 {
        31
    } else if m == 8 {
        31
    } else if m == 9 {
        30
    } else if m == 10 {
        31
    } else if m == 11 {
        30
    } else {
        31
    }
}

/// The length of the given month in a year of the given leap status.
pub open spec fn month_len(m: int, leap: bool) -> int {
    usual_days_in_month(m) + if m == 2 && leap {
        1int
    } else {
        0int
    }
}

/// The length of the given month, with February extended in leap years.
pub open spec fn days_in_month_spec(y: int, m: int) -> int {
    month_len(m, is_leap_year_spec(y))
}

/// Days from the start of the year to the start of month `m`, in a year
/// whose leap status is `leap`.
pub open spec fn cum_days_before_month(m: int, leap: bool) -> int
    decreases (if m <= 1 { 0int } else { m - 1 }),
{
    if m <= 1 {
        0
    } else {
        cum_days_before_month(m - 1, leap) + usual_days_in_month(m - 1) + if leap && m - 1 == 2 {
            1int
        } else {
            0int
        }
    }
}

/// The leap-year extension of February shifts every later month start by
/// one day and no earlier one.
pub proof fn lemma_cum_days_leap(m: int)
    requires
        1 <= m,
    ensures
        cum_days_before_month(m, true) == cum_days_before_month(m, false) + if m > 2 {
            1int
        } else {
            0int
        },
    decreases m,
{
    if m > 1 {
        lemma_cum_days_leap(m - 1);
    }
}

/// Years in which a leap second was inserted at the end of the previous
/// December, i.e. took effect on this January 1.
pub open spec fn is_january_leap_year(y: int) -> bool {
    y == 1972 || y == 1973 || y == 1974 || y == 1975 || y == 1976 || y == 1977 || y == 1978 || y
        == 1979 || y == 1980 || y == 1988 || y == 1990 || y == 1991 || y == 1996 || y == 1999 || y
        == 2006 || y == 2009 || y == 2017
}

/// Years in which a leap second was inserted at the end of June.
pub open spec fn is_july_leap_year(y: int) -> bool {
    y == 1972 || y == 1981 || y == 1982 || y == 1983 || y == 1985 || y == 1992 || y == 1993 || y
        == 1994 || y == 1997 || y == 2012 || y == 2015
}

/// Whether this calendar minute is one that legally carried a 60th second:
/// the last minute of a June preceding a July insertion, or of a December
/// preceding a January insertion.
pub open spec fn is_leap_second_minute(y: int, m: int, d: int, h: int, mi: int) -> bool {
    (m == 6 || m == 12) && d == usual_days_in_month(m) && h == 23 && mi == 59 && ((m == 6
        && is_july_leap_year(y)) || (m == 12 && is_january_leap_year(y + 1)))
}

/// Whether the calendar fields name a real Gregorian date-time; the literal
/// second 60 is admitted only in a minute that carried a leap second.
pub open spec fn is_gregorian_valid_spec(
    y: int,
    m: int,
    d: int,
    h: int,
    mi: int,
    s: int,
    ns: int,
) -> bool {
    let max_s: int = if is_leap_second_minute(y, m, d, h, mi) {
        60
    } else {
        59
    };
    1 <= m <= 12 && 1 <= d <= 31 && h <= 24 && mi <= 59 && s <= max_s && ns < 1_000_000_000 && (d
        <= usual_days_in_month(m) || (m == 2 && d == 29 && is_leap_year_spec(y)))
}

/// Returns true if the provided Gregorian date-time is valid; leap-second
/// minutes may carry 60 seconds.
pub fn is_gregorian_valid(
    year: i32,
    month: u8,
    day: u8,
    hour: u8,
    minute: u8,
    second: u8,
    nanos: u32,
) -> (r: bool)
    ensures
        r == is_gregorian_valid_spec(
            year as int,
            month as int,
            day as int,
            hour as int,
            minute as int,
            second as int,
            nanos as int,
        ),
{
    if month == 0 || month > 12 || day == 0 || day > 31 || hour > 24 || minute > 59 || nanos
        >= 1_000_000_000 {
        return false;
    }
    let max_seconds: u8 = if (month == 12 || month == 6) && day == usual_days_per_month(month)
        && hour == 23 && minute == 59 && ((month == 6 && july_years_contains(year)) || (month == 12
        && january_years_contains_next(year))) {
        60
    } else {
        59
    };
    if second > max_seconds {
        return false;
    }
    if day > usual_days_per_month(month) && !(month == 2 && day == 29 && is_leap_year(year)) {
        return false;
    }
    true
}

/// Whether a leap second was inserted at the end of June of this year.
fn july_years_contains(year: i32) -> (r: bool)
    ensures
        r == is_july_leap_year(year as int),
{
    year == 1972 || year == 1981 || year == 1982 || year == 1983 || year == 1985 || year == 1992
        || year == 1993 || year == 1994 || year == 1997 || year == 2012 || year == 2015
}

/// Whether a leap second was inserted at the end of December of this year,
/// i.e. whether the following year is a January insertion year.
fn january_years_contains_next(year: i32) -> (r: bool)
    ensures
        r == is_january_leap_year(year as int + 1),
{
    let y = year as i64 + 1;
    y == 1972 || y == 1973 || y == 1974 || y == 1975 || y == 1976 || y == 1977 || y == 1978 || y
        == 1979 || y == 1980 || y == 1988 || y == 1990 || y == 1991 || y == 1996 || y == 1999 || y
        == 2006 || y == 2009 || y == 2017
}

/// Days from 1900-01-01 to the start of the given calendar day, signed:
/// 365 per elapsed year plus the leap days accumulated since 1900, so a
/// day before 1900 counts negatively; no leap day is repaid before 1900,
/// as the epoch model's year walk starts there.
pub open spec fn gregorian_days_from_1900(y: int, m: int, d: int) -> int {
    365 * (y - 1900) + leap_days_1900_to(y) + cum_days_before_month(m, is_leap_year_spec(y)) + (d
        - 1)
}

/// The TAI nanoseconds since 1900-01-01T00:00:00 that the Gregorian fields
/// denote; a literal second of 60 lands on the same instant as the
/// following 00:00:00.
pub open spec fn gregorian_tai_ns(
    y: int,
    m: int,
    d: int,
    h: int,
    mi: int,
    s: int,
    ns: int,
) -> int {
    gregorian_days_from_1900(y, m, d) * NS_PER_DAY + h * NS_PER_HOUR + mi * NS_PER_MINUTE + s
        * NS_PER_SECOND + ns - if s == 60 {
        NS_PER_SECOND as int
    } else {
        0int
    }
}

/// How many days the given year lasts.
pub open spec fn year_len(y: int) -> int {
    365 + if is_leap_year_spec(y) {
        1int
    } else {
        0int
    }
}

/// The day count of the given year's January 1.
pub open spec fn year_start_days(y: int) -> int {
    365 * (y - 1900) + leap_days_1900_to(y)
}

/// Each year from 1900 on starts one year length after the previous one.
proof fn lemma_year_start_step(y: int)
    requires
        y >= 1900,
    ensures
        year_start_days(y + 1) == year_start_days(y) + year_len(y),
{
    assert(leap_days_1900_to(y + 1) == leap_days_1900_to(y) + if is_leap_year_spec(y) {
        1int
    } else {
        0int
    });
}

/// From 1900 on, a later year starts no earlier than a full year length
/// past an earlier one.
proof fn lemma_year_start_separated(y1: int, y2: int)
    requires
        1900 <= y1 < y2,
    ensures
        year_start_days(y1) + year_len(y1) <= year_start_days(y2),
    decreases y2 - y1,
{
    lemma_year_start_step(y2 - 1);
    if y1 < y2 - 1 {
        lemma_year_start_separated(y1, y2 - 1);
    }
}

/// A valid month and day land strictly inside their year's day count.
proof fn lemma_day_offset_in_year(y: int, m: int, d: int)
    requires
        1 <= m <= 12,
        1 <= d <= month_len(m, is_leap_year_spec(y)),
    ensures
        0 <= cum_days_before_month(m, is_leap_year_spec(y)) + (d - 1) < year_len(y),
{
    reveal_with_fuel(cum_days_before_month, 13);
}

/// From 1900 on, the day count determines the calendar day: two valid
/// dates with equal day counts are equal.
#[verifier::rlimit(100)]
#[verifier::spinoff_prover]
proof fn lemma_gregorian_days_injective(y1: int, m1: int, d1: int, y2: int, m2: int, d2: int)
    requires
        y1 >= 1900,
        y2 >= 1900,
        1 <= m1 <= 12,
        1 <= d1 <= month_len(m1, is_leap_year_spec(y1)),
        1 <= m2 <= 12,
        1 <= d2 <= month_len(m2, is_leap_year_spec(y2)),
        gregorian_days_from_1900(y1, m1, d1) == gregorian_days_from_1900(y2, m2, d2),
    ensures
        y1 == y2,
        m1 == m2,
        d1 == d2,
{
    lemma_day_offset_in_year(y1, m1, d1);
    lemma_day_offset_in_year(y2, m2, d2);
    if y1 < y2 {
        lemma_year_start_separated(y1, y2);
    }
    if y2 < y1 {
        lemma_year_start_separated(y2, y1);
    }
    assert(y1 == y2);
    reveal_with_fuel(cum_days_before_month, 13);
}

/// From 1900 on, the TAI reading determines the calendar fields: two
/// valid field tuples — month, day, hour, minute and nanosecond in range
/// and the second below 60 — that denote the same instant are equal.
/// This is what lets an exact calendar reading follow from the
/// decomposition contract: any fields it returns that map back to the
/// instant are the one valid reading of it.
pub proof fn lemma_gregorian_tai_ns_injective(
    y1: int,
    m1: int,
    d1: int,
    h1: int,
    mi1: int,
    s1: int,
    ns1: int,
    y2: int,
    m2: int,
    d2: int,
    h2: int,
    mi2: int,
    s2: int,
    ns2: int,
)
    requires
        y1 >= 1900,
        y2 >= 1900,
        1 <= m1 <= 12,
        1 <= d1 <= days_in_month_spec(y1, m1),
        0 <= h1 < 24,
        0 <= mi1 < 60,
        0 <= s1 < 60,
        0 <= ns1 < 1_000_000_000,
        1 <= m2 <= 12,
        1 <= d2 <= days_in_month_spec(y2, m2),
        0 <= h2 < 24,
        0 <= mi2 < 60,
        0 <= s2 < 60,
        0 <= ns2 < 1_000_000_000,
        gregorian_tai_ns(y1, m1, d1, h1, mi1, s1, ns1) == gregorian_tai_ns(
            y2,
            m2,
            d2,
            h2,
            mi2,
            s2,
            ns2,
        ),
    ensures
        y1 == y2 && m1 == m2 && d1 == d2 && h1 == h2 && mi1 == mi2 && s1 == s2 && ns1 == ns2,
{
    let t = gregorian_tai_ns(y1, m1, d1, h1, mi1, s1, ns1);
    let dd1 = gregorian_days_from_1900(y1, m1, d1);
    let dd2 = gregorian_days_from_1900(y2, m2, d2);
    let time1 = h1 * NS_PER_HOUR + mi1 * NS_PER_MINUTE + s1 * NS_PER_SECOND + ns1;
    let time2 = h2 * NS_PER_HOUR + mi2 * NS_PER_MINUTE + s2 * NS_PER_SECOND + ns2;
    vstd::arithmetic::div_mod::lemma_fundamental_div_mod_converse(
        t,
        NS_PER_DAY as int,
        dd1,
        time1,
    );
    vstd::arithmetic::div_mod::lemma_fundamental_div_mod_converse(
        t,
        NS_PER_DAY as int,
        dd2,
        time2,
    );
    assert(dd1 == dd2 && time1 == time2);
    lemma_gregorian_days_injective(y1, m1, d1, y2, m2, d2);
    let rest1 = mi1 * NS_PER_MINUTE + s1 * NS_PER_SECOND + ns1;
    let rest2 = mi2 * NS_PER_MINUTE + s2 * NS_PER_SECOND + ns2;
    vstd::arithmetic::div_mod::lemma_fundamental_div_mod_converse(
        time1,
        NS_PER_HOUR as int,
        h1,
        rest1,
    );
    vstd::arithmetic::div_mod::lemma_fundamental_div_mod_converse(
        time1,
        NS_PER_HOUR as int,
        h2,
        rest2,
    );
    assert(h1 == h2 && rest1 == rest2);
    vstd::arithmetic::div_mod::lemma_fundamental_div_mod_converse(
        rest1,
        NS_PER_MINUTE as int,
        mi1,
        s1 * NS_PER_SECOND + ns1,
    );
    vstd::arithmetic::div_mod::lemma_fundamental_div_mod_converse(
        rest1,
        NS_PER_MINUTE as int,
        mi2,
        s2 * NS_PER_SECOND + ns2,
    );
    assert(mi1 == mi2 && s1 * NS_PER_SECOND + ns1 == s2 * NS_PER_SECOND + ns2);
    vstd::arithmetic::div_mod::lemma_fundamental_div_mod_converse(
        s1 * NS_PER_SECOND + ns1,
        NS_PER_SECOND as int,
        s1,
        ns1,
    );
    vstd::arithmetic::div_mod::lemma_fundamental_div_mod_converse(
        s1 * NS_PER_SECOND + ns1,
        NS_PER_SECOND as int,
        s2,
        ns2,
    );
}

} // verus!
