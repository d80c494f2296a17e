//! A signed time interval stored as a normalized pair: whole Julian
//! centuries and a non-negative sub-century remainder in nanoseconds.
//!
//! The pair `(centuries, nanoseconds)` denotes the integer value
//! `centuries * NS_PER_CENTURY + nanoseconds` nanoseconds, with
//! `0 <= nanoseconds < NS_PER_CENTURY` even for negative totals, so every
//! representable interval has exactly one representation and all arithmetic
//! is exact integer arithmetic.

use vstd::arithmetic::div_mod::{
    lemma_fundamental_div_mod, lemma_mod_bound, lemma_mod_multiples_vanish, lemma_small_mod,
};
use vstd::prelude::*;

verus! {

/// Nanoseconds in one microsecond.
pub const NS_PER_MICROSECOND: u64 = 1_000;

/// Nanoseconds in one millisecond.
pub const NS_PER_MILLISECOND: u64 = 1_000_000;

/// Nanoseconds in one second.
pub const NS_PER_SECOND: u64 = 1_000_000_000;

/// Nanoseconds in one minute.
pub const NS_PER_MINUTE: u64 = 60_000_000_000;

/// Nanoseconds in one hour.
pub const NS_PER_HOUR: u64 = 3_600_000_000_000;

/// Nanoseconds in one day of 86,400 seconds.
pub const NS_PER_DAY: u64 = 86_400_000_000_000;

/// Nanoseconds in one week.
pub const NS_PER_WEEK: u64 = 604_800_000_000_000;

/// Nanoseconds in one Julian century of 36,525 days.
pub const NS_PER_CENTURY: u64 = 3_155_760_000_000_000_000;

/// The least representable total, in nanoseconds: `i16::MIN` centuries.
pub open spec fn min_total_ns() -> int {
    -32768 * (NS_PER_CENTURY as int)
}

/// The greatest representable total, in nanoseconds:
/// `i16::MAX` centuries plus a full sub-century remainder.
pub open spec fn max_total_ns() -> int {
    32767 * (NS_PER_CENTURY as int) + (NS_PER_CENTURY as int - 1)
}

/// The total of the duration returned when an operation overflows upward:
/// `i16::MAX` centuries with a zero remainder.
pub open spec fn max_saturated_total_ns() -> int {
    32767 * (NS_PER_CENTURY as int)
}

/// What every arithmetic operation returns: the exact total when it is
/// representable, else the saturation bound on the side that overflowed.
pub open spec fn clamp_total_ns(t: int) -> int {
    if t > max_total_ns() {
        max_saturated_total_ns()
    } else if t < min_total_ns() {
        min_total_ns()
    } else {
        t
    }
}

/// A signed interval with nanosecond resolution over roughly
/// ±3.2 million years.
#[derive(Copy, Clone, Debug, PartialEq, Eq, Structural, PartialOrd, Ord, Hash)]
pub struct Duration {
    /// Whole Julian centuries; negative for intervals before the origin.
    pub centuries: i16,
    /// Remainder past `centuries`, always in `[0, NS_PER_CENTURY)`.
    pub nanoseconds: u64,
}

impl Duration {
    /// The value this pair denotes, as a mathematical count of nanoseconds.
    pub open spec fn total_ns(self) -> int {
        (self.centuries as int) * (NS_PER_CENTURY as int) + (self.nanoseconds as int)
    }

    /// The normalization invariant: the remainder stays below one century.
    pub open spec fn is_normalized(self) -> bool {
        self.nanoseconds < NS_PER_CENTURY
    }

    /// A normalized duration always totals within the representable range.
    pub proof fn lemma_total_in_range(self)
        requires
            self.is_normalized(),
        ensures
            min_total_ns() <= self.total_ns() <= max_total_ns(),
    {
    }

    /// Normalization makes the representation unique: equal totals mean
    /// equal pairs.
    pub proof fn lemma_total_injective(a: Duration, b: Duration)
        requires
            a.is_normalized(),
            b.is_normalized(),
            a.total_ns() == b.total_ns(),
        ensures
            a == b,
    {
    }

    /// Builds a duration from parts that already satisfy the
    /// normalization invariant.
    pub fn from_parts(centuries: i16, nanoseconds: u64) -> (d: Duration)
        requires
            nanoseconds < NS_PER_CENTURY,
        ensures
            d.is_normalized(),
            d.centuries == centuries,
            d.nanoseconds == nanoseconds,
    {
        Duration { centuries, nanoseconds }
    }

    /// Returns the two fields of the normalized pair.
    pub fn to_parts(&self) -> (r: (i16, u64))
        ensures
            r.0 == self.centuries,
            r.1 == self.nanoseconds,
    {
        (self.centuries, self.nanoseconds)
    }

    /// The exact total in nanoseconds, as a machine integer.
    pub fn total_nanoseconds(&self) -> (t: i128)
        requires
            self.is_normalized(),
        ensures
            t == self.total_ns(),
    {
        proof {
            let c = self.centuries as int;
            assert(-32768 * (NS_PER_CENTURY as int) <= c * (NS_PER_CENTURY as int) <= 32767 * (
            NS_PER_CENTURY as int)) by (nonlinear_arith)
                requires
                    -32768 <= c <= 32767,
            ;
        }
        (self.centuries as i128) * (NS_PER_CENTURY as i128) + (self.nanoseconds as i128)
    }

    /// Splits a total count of nanoseconds into the normalized pair,
    /// saturating at the representable bounds.
    pub fn from_total_nanoseconds(total: i128) -> (d: Duration)
        ensures
            d.is_normalized(),
            d.total_ns() == clamp_total_ns(total as int),
    {
        let ns_c: i128 = NS_PER_CENTURY as i128;
        if total > 32767 * ns_c + (ns_c - 1) {
            Duration { centuries: 32767, nanoseconds: 0 }
        } else if total < -32768 * ns_c {
            Duration { centuries: -32768, nanoseconds: 0 }
        } else if total >= 0 {
            let t: u128 = total as u128;
            let q: u128 = t / (NS_PER_CENTURY as u128);
            let r: u128 = t % (NS_PER_CENTURY as u128);
            Duration { centuries: q as i16, nanoseconds: r as u64 }
        } else {
            let t: u128 = (-total) as u128;
            let q: u128 = t / (NS_PER_CENTURY as u128);
            let r: u128 = t % (NS_PER_CENTURY as u128);
            if r == 0 {
                Duration { centuries: -(q as i64) as i16, nanoseconds: 0 }
            } else {
                Duration {
                    centuries: (-(q as i64) - 1) as i16,
                    nanoseconds: NS_PER_CENTURY - (r as u64),
                }
            }
        }
    }

    /// Adds two durations, saturating at the representable bounds.
    pub fn add(self, rhs: Duration) -> (r: Duration)
        requires
            self.is_normalized(),
            rhs.is_normalized(),
        ensures
            r.is_normalized(),
            r.total_ns() == clamp_total_ns(self.total_ns() + rhs.total_ns()),
    {
        Duration::from_total_nanoseconds(self.total_nanoseconds() + rhs.total_nanoseconds())
    }

    /// Subtracts a duration, saturating at the representable bounds.
    pub fn sub(self, rhs: Duration) -> (r: Duration)
        requires
            self.is_normalized(),
            rhs.is_normalized(),
        ensures
            r.is_normalized(),
            r.total_ns() == clamp_total_ns(self.total_ns() - rhs.total_ns()),
    {
        Duration::from_total_nanoseconds(self.total_nanoseconds() - rhs.total_nanoseconds())
    }

    /// The opposite interval, saturating at the representable bounds.
    pub fn neg(self) -> (r: Duration)
        requires
            self.is_normalized(),
        ensures
            r.is_normalized(),
            r.total_ns() == clamp_total_ns(-self.total_ns()),
    {
        Duration::from_total_nanoseconds(-self.total_nanoseconds())
    }

    /// Scales the interval by an integer factor, saturating at the
    /// representable bounds.
    pub fn mul_int(self, n: i64) -> (r: Duration)
        requires
            self.is_normalized(),
        ensures
            r.is_normalized(),
            r.total_ns() == clamp_total_ns(n * self.total_ns()),
    {
        let t = self.total_nanoseconds();
        match t.checked_mul(n as i128) {
            Some(product) => {
                proof {
                    assert((t as int) * ((n as i128) as int) == (n as int) * (
                    self.total_ns() as int)) by (nonlinear_arith)
                        requires
                            t == self.total_ns(),
                            (n as i128) as int == n as int,
                    ;
                }
                Duration::from_total_nanoseconds(product)
            },
            None => {
                proof {
                    let p = (n as int) * (t as int);
                    assert(p == (t as int) * ((n as i128) as int)) by (nonlinear_arith)
                        requires
                            p == (n as int) * (t as int),
                            (n as i128) as int == n as int,
                    ;
                    assert(p > 170141183460469231731687303715884105727 || p
                        < -170141183460469231731687303715884105728);
                    assert(t != 0 && n != 0) by (nonlinear_arith)
                        requires
                            p == (n as int) * (t as int),
                            p != 0,
                    ;
                    assert((t > 0) == (n > 0) ==> p > 0) by (nonlinear_arith)
                        requires
                            p == (n as int) * (t as int),
                            t != 0,
                            n != 0,
                    ;
                    assert((t > 0) != (n > 0) ==> p < 0) by (nonlinear_arith)
                        requires
                            p == (n as int) * (t as int),
                            t != 0,
                            n != 0,
                    ;
                }
                if (t > 0) == (n > 0) {
                    Duration { centuries: 32767, nanoseconds: 0 }
                } else {
                    Duration { centuries: -32768, nanoseconds: 0 }
                }
            },
        }
    }

    /// A whole number of the given unit, saturating at the representable
    /// bounds.
    pub fn from_count(n: i64, unit: Unit) -> (r: Duration)
        ensures
            r.is_normalized(),
            r.total_ns() == clamp_total_ns(n * unit.factor_spec()),
    {
        let f = unit.factor();
        proof {
            let ni = n as int;
            let fi = f as int;
            assert(-170141183460469231731687303715884105728 <= ni * fi
                <= 170141183460469231731687303715884105727) by (nonlinear_arith)
                requires
                    -9223372036854775808 <= ni <= 9223372036854775807,
                    1 <= fi <= 3_155_760_000_000_000_000,
            ;
        }
        Duration::from_total_nanoseconds((n as i128) * (f as i128))
    }

    /// The Euclidean remainder of this duration's total by a positive step,
    /// in nanoseconds: always in `[0, step)`.
    fn rem_total(total: i128, step: i128) -> (r: i128)
        requires
            0 < step,
            min_total_ns() <= total <= max_total_ns(),
            step <= max_total_ns(),
        ensures
            r == (total as int) % (step as int),
            0 <= r < step,
    {
        proof {
            lemma_mod_bound(total as int, step as int);
        }
        if total >= 0 {
            (((total as u128)) % (step as u128)) as i128
        } else {
            let m: u128 = ((-total) as u128) % (step as u128);
            proof {
                let t = total as int;
                let s = step as int;
                let q = (-t) / s;
                let r0 = (-t) % s;
                lemma_fundamental_div_mod(-t, s);
                lemma_mod_bound(-t, s);
                assert(m == r0);
                if r0 == 0 {
                    assert(s * (-q) == -(s * q)) by (nonlinear_arith);
                    assert(t == s * (-q) + 0);
                    lemma_mod_multiples_vanish(-q, 0, s);
                    lemma_small_mod(0, s as nat);
                    assert(t % s == 0);
                } else {
                    assert(s * (-q - 1) == -(s * q) - s) by (nonlinear_arith);
                    assert(t == s * (-q - 1) + (s - r0));
                    lemma_mod_multiples_vanish(-q - 1, s - r0, s);
                    lemma_small_mod((s - r0) as nat, s as nat);
                    assert(t % s == s - r0);
                }
            }
            if m == 0 {
                0
            } else {
                step - (m as i128)
            }
        }
    }

    /// The largest multiple of `step` (counted from the zero duration) that
    /// does not exceed this duration; saturates at the representable bounds.
    pub fn floor(&self, step: Duration) -> (r: Duration)
        requires
            self.is_normalized(),
            step.is_normalized(),
            step.total_ns() > 0,
        ensures
            r.is_normalized(),
            r.total_ns() == clamp_total_ns(self.total_ns() - self.total_ns() % step.total_ns()),
    {
        let t = self.total_nanoseconds();
        let s = step.total_nanoseconds();
        let rem = Self::rem_total(t, s);
        Duration::from_total_nanoseconds(t - rem)
    }

    /// The smallest multiple of `step` (counted from the zero duration) that
    /// is not below this duration; saturates at the representable bounds.
    pub fn ceil(&self, step: Duration) -> (r: Duration)
        requires
            self.is_normalized(),
            step.is_normalized(),
            step.total_ns() > 0,
        ensures
            r.is_normalized(),
            r.total_ns() == clamp_total_ns(ceil_total_ns(self.total_ns(), step.total_ns())),
    {
        let t = self.total_nanoseconds();
        let s = step.total_nanoseconds();
        let rem = Self::rem_total(t, s);
        if rem == 0 {
            proof {
                self.lemma_total_in_range();
            }
            *self
        } else {
            Duration::from_total_nanoseconds(t - rem + s)
        }
    }

    /// The multiple of `step` nearest to this duration, ties rounding away
    /// from the floor; saturates at the representable bounds.
    pub fn round(&self, step: Duration) -> (r: Duration)
        requires
            self.is_normalized(),
            step.is_normalized(),
            step.total_ns() > 0,
        ensures
            r.is_normalized(),
            r.total_ns() == clamp_total_ns(round_total_ns(self.total_ns(), step.total_ns())),
    {
        let t = self.total_nanoseconds();
        let s = step.total_nanoseconds();
        let rem = Self::rem_total(t, s);
        if rem == 0 {
            proof {
                self.lemma_total_in_range();
            }
            *self
        } else if 2 * rem < s {
            Duration::from_total_nanoseconds(t - rem)
        } else {
            Duration::from_total_nanoseconds(t - rem + s)
        }
    }

    /// Splits the interval into sign, whole days, and the remainders of each
    /// finer unit down to nanoseconds.
    pub fn decompose(&self) -> (r: (i8, u64, u64, u64, u64, u64, u64, u64))
        requires
            self.is_normalized(),
        ensures
            r.0 == 1 || r.0 == -1,
            self.total_ns() < 0 ==> r.0 == -1,
            self.total_ns() >= 0 ==> r.0 == 1,
            r.2 < 24 && r.3 < 60 && r.4 < 60 && r.5 < 1000 && r.6 < 1000 && r.7 < 1000,
            r.0 * (r.1 * NS_PER_DAY + r.2 * NS_PER_HOUR + r.3 * NS_PER_MINUTE + r.4 * NS_PER_SECOND
                + r.5 * NS_PER_MILLISECOND + r.6 * NS_PER_MICROSECOND + r.7) == self.total_ns(),
    {
        let t = self.total_nanoseconds();
        let (sign, mag): (i8, u128) = if t < 0 {
            (-1, (-t) as u128)
        } else {
            (1, t as u128)
        };
        let days = mag / (NS_PER_DAY as u128);
        let rem_day = mag % (NS_PER_DAY as u128);
        let hours = rem_day / (NS_PER_HOUR as u128);
        let rem_hour = rem_day % (NS_PER_HOUR as u128);
        let minutes = rem_hour / (NS_PER_MINUTE as u128);
        let rem_minute = rem_hour % (NS_PER_MINUTE as u128);
        let seconds = rem_minute / (NS_PER_SECOND as u128);
        let rem_second = rem_minute % (NS_PER_SECOND as u128);
        let millis = rem_second / (NS_PER_MILLISECOND as u128);
        let rem_milli = rem_second % (NS_PER_MILLISECOND as u128);
        let micros = rem_milli / (NS_PER_MICROSECOND as u128);
        let nanos = rem_milli % (NS_PER_MICROSECOND as u128);
        (
            sign,
            days as u64,
            hours as u64,
            minutes as u64,
            seconds as u64,
            millis as u64,
            micros as u64,
            nanos as u64,
        )
    }
}

/// What `ceil` computes before saturation: the total unchanged on a step
/// boundary, else the next boundary up.
pub open spec fn ceil_total_ns(t: int, s: int) -> int {
    if t % s == 0 {
        t
    } else {
        t - t % s + s
    }
}

/// What `round` computes before saturation: the nearer of the two
/// surrounding step boundaries, ties taken upward.
pub open spec fn round_total_ns(t: int, s: int) -> int {
    if 2 * (t % s) < s {
        t - t % s
    } else {
        ceil_total_ns(t, s)
    }
}

/// The sub-century remainder of a normalized duration always lies in
/// `[0, NS_PER_CENTURY)`, whatever the sign of the whole interval.
pub proof fn lemma_nanoseconds_in_range(d: Duration)
    requires
        d.is_normalized(),
    ensures
        0 <= d.nanoseconds < NS_PER_CENTURY,
{
}

/// Comparing normalized pairs lexicographically — centuries first, then
/// the remainder — agrees with comparing the intervals they denote, which
/// is why the field-order comparison of two durations, or of two epochs,
/// orders them by time.
pub proof fn lemma_lex_order_matches_total(a: Duration, b: Duration)
    requires
        a.is_normalized(),
        b.is_normalized(),
    ensures
        (a.centuries < b.centuries || (a.centuries == b.centuries && a.nanoseconds
            < b.nanoseconds)) <==> a.total_ns() < b.total_ns(),
{
}

/// Subtracting a duration from itself always yields the zero duration,
/// saturation notwithstanding: `r` is any value meeting `sub`'s contract
/// for `d - d`.
pub proof fn lemma_sub_self_is_zero(d: Duration, r: Duration)
    requires
        d.is_normalized(),
        r.is_normalized(),
        r.total_ns() == clamp_total_ns(d.total_ns() - d.total_ns()),
    ensures
        r == (Duration { centuries: 0, nanoseconds: 0 }),
{
    Duration::lemma_total_injective(r, Duration { centuries: 0, nanoseconds: 0 });
}

/// A duration lies between its floor and its ceiling for any positive step,
/// and the two boundaries differ by zero or exactly one step. `f` and `c`
/// are any values meeting the contracts of `floor` and `ceil` on `d`, for
/// inputs on which neither saturates.
pub proof fn lemma_floor_ceil_bracket(d: Duration, step: Duration, f: Duration, c: Duration)
    requires
        d.is_normalized(),
        step.is_normalized(),
        step.total_ns() > 0,
        f.total_ns() == clamp_total_ns(d.total_ns() - d.total_ns() % step.total_ns()),
        c.total_ns() == clamp_total_ns(ceil_total_ns(d.total_ns(), step.total_ns())),
        min_total_ns() <= d.total_ns() - d.total_ns() % step.total_ns(),
        ceil_total_ns(d.total_ns(), step.total_ns()) <= max_total_ns(),
    ensures
        f.total_ns() <= d.total_ns() <= c.total_ns(),
        c.total_ns() - f.total_ns() == 0 || c.total_ns() - f.total_ns() == step.total_ns(),
{
    lemma_mod_bound(d.total_ns(), step.total_ns());
}

/// Rounding picks the nearer of floor and ceiling, and a tie goes to the
/// ceiling. `f`, `c` and `r` are any values meeting the contracts of
/// `floor`, `ceil` and `round` on `d`, for inputs on which none saturates.
pub proof fn lemma_round_is_nearest(
    d: Duration,
    step: Duration,
    f: Duration,
    c: Duration,
    r: Duration,
)
    requires
        d.is_normalized(),
        step.is_normalized(),
        step.total_ns() > 0,
        f.total_ns() == clamp_total_ns(d.total_ns() - d.total_ns() % step.total_ns()),
        c.total_ns() == clamp_total_ns(ceil_total_ns(d.total_ns(), step.total_ns())),
        r.total_ns() == clamp_total_ns(round_total_ns(d.total_ns(), step.total_ns())),
        min_total_ns() <= d.total_ns() - d.total_ns() % step.total_ns(),
        ceil_total_ns(d.total_ns(), step.total_ns()) <= max_total_ns(),
    ensures
        r.total_ns() == f.total_ns() || r.total_ns() == c.total_ns(),
        d.total_ns() - f.total_ns() < c.total_ns() - d.total_ns() ==> r.total_ns()
            == f.total_ns(),
        c.total_ns() - d.total_ns() < d.total_ns() - f.total_ns() ==> r.total_ns()
            == c.total_ns(),
        c.total_ns() - d.total_ns() == d.total_ns() - f.total_ns() && f.total_ns()
            != c.total_ns() ==> r.total_ns() == c.total_ns(),
{
    lemma_mod_bound(d.total_ns(), step.total_ns());
}

/// The units a duration can be counted in.
#[derive(Copy, Clone, Debug, PartialEq, Eq, Structural)]
pub enum Unit {
    Nanosecond,
    Microsecond,
    Millisecond,
    Second,
    Minute,
    Hour,
    Day,
    Week,
    Century,
}

impl Unit {
    /// How many nanoseconds one of this unit lasts.
    pub open spec fn factor_spec(self) -> int {
        match self {
            Unit::Nanosecond => 1,
            Unit::Microsecond => NS_PER_MICROSECOND as int,
            Unit::Millisecond => NS_PER_MILLISECOND as int,
            Unit::Second => NS_PER_SECOND as int,
            Unit::Minute => NS_PER_MINUTE as int,
            Unit::Hour => NS_PER_HOUR as int,
            Unit::Day => NS_PER_DAY as int,
            Unit::Week => NS_PER_WEEK as int,
            Unit::Century => NS_PER_CENTURY as int,
        }
    }

    /// How many nanoseconds one of this unit lasts.
    pub fn factor(self) -> (f: u64)
        ensures
            f == self.factor_spec(),
            1 <= f <= NS_PER_CENTURY,
    {
        match self {
            Unit::Nanosecond => 1,
            Unit::Microsecond => NS_PER_MICROSECOND,
            Unit::Millisecond => NS_PER_MILLISECOND,
            Unit::Second => NS_PER_SECOND,
            Unit::Minute => NS_PER_MINUTE,
            Unit::Hour => NS_PER_HOUR,
            Unit::Day => NS_PER_DAY,
            Unit::Week => NS_PER_WEEK,
            Unit::Century => NS_PER_CENTURY,
        }
    }
}

} // verus!
