//! The ISO-8601 date-time grammar this library reads:
//! `YYYY-MM-DDThh:mm:ss[.f…][ SCALE]`, where the separator before the time
//! may be `T` or any non-word byte, the fractional seconds carry up to nine
//! digits, and the optional trailing scale tag defaults to UTC.

use crate::{Errors, ParsingErrors, TimeSystem};
use vstd::prelude::*;
use vstd::string::StringSliceAdditionalSpecFns;

verus! {

/// Whether the byte is an ASCII decimal digit.
pub open spec fn is_digit_byte(b: u8) -> bool {
    48 <= b <= 57
}

/// Whether the byte is a word byte: a digit, a letter or an underscore.
pub open spec fn is_word_byte(b: u8) -> bool {
    is_digit_byte(b) || (65 <= b <= 90) || (97 <= b <= 122) || b == 95
}

/// Whether every byte in `[i, j)` is a decimal digit.
pub open spec fn digits_at(s: Seq<u8>, i: int, j: int) -> bool {
    forall|k: int| i <= k < j ==> is_digit_byte(#[trigger] s[k])
}

/// The number the digit bytes in `[i, j)` spell.
pub open spec fn digits_val(s: Seq<u8>, i: int, j: int) -> int
    decreases (if i < j { j - i } else { 0int }),
{
    if i >= j {
        0
    } else {
        10 * digits_val(s, i, j - 1) + (s[j - 1] - 48)
    }
}

/// Ten to the given power.
pub open spec fn pow10(n: nat) -> int
    decreases n,
{
    if n == 0 {
        1
    } else {
        10 * pow10((n - 1) as nat)
    }
}

/// A digit string's value stays below ten to its length.
proof fn lemma_digits_val_bound(s: Seq<u8>, i: int, j: int)
    requires
        i <= j,
        digits_at(s, i, j),
        forall|k: int| i <= k < j ==> 0 <= #[trigger] s[k],
    ensures
        0 <= digits_val(s, i, j) < pow10((j - i) as nat),
    decreases j - i,
{
    if i < j {
        lemma_digits_val_bound(s, i, j - 1);
    }
}

/// Ten to any power is at least one.
proof fn lemma_pow10_pos(n: nat)
    ensures
        pow10(n) >= 1,
    decreases n,
{
    if n > 0 {
        lemma_pow10_pos((n - 1) as nat);
    }
}

/// Powers of ten grow with the exponent.
proof fn lemma_pow10_monotone(a: nat, b: nat)
    requires
        a <= b,
    ensures
        pow10(a) <= pow10(b),
    decreases b,
{
    if a < b {
        lemma_pow10_monotone(a, (b - 1) as nat);
        lemma_pow10_pos((b - 1) as nat);
    }
}

/// Powers of ten multiply by adding exponents.
proof fn lemma_pow10_adds(a: nat, b: nat)
    ensures
        pow10(a) * pow10(b) == pow10(a + b),
    decreases a,
{
    if a == 0 {
        assert(pow10(0) * pow10(b) == pow10(b));
    } else {
        lemma_pow10_adds((a - 1) as nat, b);
        assert(pow10(a) * pow10(b) == 10 * (pow10((a - 1) as nat) * pow10(b))) by (nonlinear_arith)
            requires
                pow10(a) == 10 * pow10((a - 1) as nat),
        ;
    }
}

/// Where the first run of digit bytes starting at `i` ends.
pub open spec fn digit_run_end(s: Seq<u8>, i: int) -> int
    decreases (if i < s.len() { s.len() - i } else { 0int }),
{
    if i >= s.len() {
        i
    } else if !is_digit_byte(s[i]) {
        i
    } else {
        digit_run_end(s, i + 1)
    }
}

/// The run of digits ends within the string and consists of digits.
proof fn lemma_digit_run_end(s: Seq<u8>, i: int)
    requires
        0 <= i <= s.len(),
    ensures
        i <= digit_run_end(s, i) <= s.len(),
        digits_at(s, i, digit_run_end(s, i)),
    decreases s.len() - i,
{
    if i < s.len() && is_digit_byte(s[i]) {
        lemma_digit_run_end(s, i + 1);
    }
}

/// Where the fractional seconds would start: past the optional dot that
/// may follow the whole seconds.
pub open spec fn frac_start(s: Seq<u8>) -> int {
    if s.len() >= 20 && s[19] == 46 {
        20
    } else {
        19
    }
}

/// Where the fractional seconds end.
pub open spec fn frac_end(s: Seq<u8>) -> int {
    digit_run_end(s, frac_start(s))
}

/// Where the scale tag would start: past the single optional non-word
/// byte that may follow the fractional seconds.
pub open spec fn tag_start(s: Seq<u8>) -> int {
    if frac_end(s) < s.len() && !is_word_byte(s[frac_end(s)]) {
        frac_end(s) + 1
    } else {
        frac_end(s)
    }
}

/// Whether the bytes have the shape of the grammar: the fixed date-time
/// fields, then the optional fraction, then no tag or a tag of two or
/// three word bytes.
pub open spec fn gregorian_shape_ok(s: Seq<u8>) -> bool {
    &&& s.len() >= 19
    &&& digits_at(s, 0, 4)
    &&& s[4] == 45
    &&& digits_at(s, 5, 7)
    &&& s[7] == 45
    &&& digits_at(s, 8, 10)
    &&& (s[10] == 84 || !is_word_byte(s[10]))
    &&& digits_at(s, 11, 13)
    &&& s[13] == 58
    &&& digits_at(s, 14, 16)
    &&& s[16] == 58
    &&& digits_at(s, 17, 19)
    &&& (tag_start(s) == s.len() || (2 <= s.len() - tag_start(s) <= 3 && (forall|k: int|
        tag_start(s) <= k < s.len() ==> is_word_byte(#[trigger] s[k]))))
}

/// Which time scale the given tag bytes name.
pub open spec fn spec_time_system_from_bytes(s: Seq<u8>) -> Result<TimeSystem, Errors> {
    if s =~= seq![85u8, 84u8, 67u8] {
        Ok(TimeSystem::UTC)
    } else if s =~= seq![84u8, 84u8] {
        Ok(TimeSystem::TT)
    } else if s =~= seq![84u8, 65u8, 73u8] {
        Ok(TimeSystem::TAI)
    } else if s =~= seq![84u8, 68u8, 66u8] {
        Ok(TimeSystem::TDB)
    } else if s =~= seq![69u8, 84u8] {
        Ok(TimeSystem::ET)
    } else {
        Err(Errors::ParseError(ParsingErrors::TimeSystem))
    }
}

/// What parsing the bytes of an ISO-8601 date-time yields: the calendar
/// fields, the nanoseconds the fraction spells, and the scale, which is
/// UTC when no tag is present. A malformed string, or a fraction of more
/// than nine digits, is an ISO-8601 error; an unknown tag is a time
/// system error.
pub open spec fn spec_parse_gregorian(s: Seq<u8>) -> Result<
    (i32, u8, u8, u8, u8, u8, u32, TimeSystem),
    Errors,
> {
    if !gregorian_shape_ok(s) {
        Err(Errors::ParseError(ParsingErrors::ISO8601))
    } else if frac_end(s) - frac_start(s) > 9 {
        Err(Errors::ParseError(ParsingErrors::ISO8601))
    } else {
        let ts_res = if tag_start(s) == s.len() {
            Ok(TimeSystem::UTC)
        } else {
            spec_time_system_from_bytes(s.subrange(tag_start(s), s.len() as int))
        };
        match ts_res {
            Err(e) => Err(e),
            Ok(ts) => Ok(
                (
                    digits_val(s, 0, 4) as i32,
                    digits_val(s, 5, 7) as u8,
                    digits_val(s, 8, 10) as u8,
                    digits_val(s, 11, 13) as u8,
                    digits_val(s, 14, 16) as u8,
                    digits_val(s, 17, 19) as u8,
                    (digits_val(s, frac_start(s), frac_end(s)) * pow10(
                        (9 - (frac_end(s) - frac_start(s))) as nat,
                    )) as u32,
                    ts,
                ),
            ),
        }
    }
}

/// Whether every byte in `[i, j)` is a decimal digit.
fn check_digits(b: &[u8], i: usize, j: usize) -> (r: bool)
    requires
        i <= j <= b@.len(),
    ensures
        r == digits_at(b@, i as int, j as int),
{
    let mut k = i;
    while k < j
        invariant
            i <= k <= j <= b@.len(),
            digits_at(b@, i as int, k as int),
        decreases j - k,
    {
        let c = b[k];
        if c < 48 || c > 57 {
            return false;
        }
        k = k + 1;
    }
    true
}

/// The number the digit bytes in `[i, j)` spell; at most nine digits, so
/// the value fits comfortably.
fn parse_digits(b: &[u8], i: usize, j: usize) -> (v: u32)
    requires
        i <= j <= b@.len(),
        j - i <= 9,
        digits_at(b@, i as int, j as int),
    ensures
        v == digits_val(b@, i as int, j as int),
        v < pow10((j - i) as nat),
{
    proof {
        reveal_with_fuel(pow10, 10);
    }
    let mut v: u32 = 0;
    let mut k = i;
    while k < j
        invariant
            i <= k <= j <= b@.len(),
            j - i <= 9,
            digits_at(b@, i as int, j as int),
            v == digits_val(b@, i as int, k as int),
            v < pow10((k - i) as nat),
            pow10((k - i) as nat) <= pow10(9),
            pow10(9) == 1_000_000_000,
        decreases j - k,
    {
        let c = b[k];
        proof {
            assert(is_digit_byte(b@[k as int]));
            lemma_pow10_monotone((k - i) as nat, 8);
            reveal_with_fuel(pow10, 10);
        }
        v = v * 10 + ((c - 48) as u32);
        k = k + 1;
    }
    v
}

/// Where the run of digit bytes starting at `start` ends.
fn find_digit_run_end(b: &[u8], start: usize) -> (e: usize)
    requires
        start <= b@.len(),
    ensures
        e == digit_run_end(b@, start as int),
        start <= e <= b@.len(),
{
    let n = b.len();
    let mut k = start;
    while k < n
        invariant
            start <= k <= n == b@.len(),
            digit_run_end(b@, start as int) == digit_run_end(b@, k as int),
        decreases n - k,
    {
        let c = b[k];
        if c < 48 || c > 57 {
            return k;
        }
        k = k + 1;
    }
    n
}

/// Whether the byte is a word byte: a digit, a letter or an underscore.
fn is_word_byte_exec(c: u8) -> (r: bool)
    ensures
        r == is_word_byte(c),
{
    (48 <= c && c <= 57) || (65 <= c && c <= 90) || (97 <= c && c <= 122) || c == 95
}

/// Ten to the given power, for exponents up to nine.
fn pow10_exec(n: usize) -> (r: u32)
    requires
        n <= 9,
    ensures
        r == pow10(n as nat),
{
    proof {
        reveal_with_fuel(pow10, 10);
    }
    if n == 0 {
        1
    } else if n == 1 {
        10
    } else if n == 2 {
        100
    } else if n == 3 {
        1_000
    } else if n == 4 {
        10_000
    } else if n == 5 {
        100_000
    } else if n == 6 {
        1_000_000
    } else if n == 7 {
        10_000_000
    } else if n == 8 {
        100_000_000
    } else {
        1_000_000_000
    }
}

/// Which time scale the given tag bytes name: one of `UTC`, `TT`, `TAI`,
/// `TDB` or `ET`.
pub fn time_system_from_bytes(b: &[u8]) -> (r: Result<TimeSystem, Errors>)
    ensures
        r == spec_time_system_from_bytes(b@),
{
    let n = b.len();
    if n == 3 && b[0] == 85 && b[1] == 84 && b[2] == 67 {
        proof {
            assert(b@ =~= seq![85u8, 84u8, 67u8]);
        }
        Ok(TimeSystem::UTC)
    } else if n == 2 && b[0] == 84 && b[1] == 84 {
        proof {
            assert(b@ =~= seq![84u8, 84u8]);
        }
        Ok(TimeSystem::TT)
    } else if n == 3 && b[0] == 84 && b[1] == 65 && b[2] == 73 {
        proof {
            assert(b@ =~= seq![84u8, 65u8, 73u8]);
        }
        Ok(TimeSystem::TAI)
    } else if n == 3 && b[0] == 84 && b[1] == 68 && b[2] == 66 {
        proof {
            assert(b@ =~= seq![84u8, 68u8, 66u8]);
        }
        Ok(TimeSystem::TDB)
    } else if n == 2 && b[0] == 69 && b[1] == 84 {
        proof {
            assert(b@ =~= seq![69u8, 84u8]);
        }
        Ok(TimeSystem::ET)
    } else {
        proof {
            assert(!(b@ =~= seq![85u8, 84u8, 67u8]));
            assert(!(b@ =~= seq![84u8, 84u8]));
            assert(!(b@ =~= seq![84u8, 65u8, 73u8]));
            assert(!(b@ =~= seq![84u8, 68u8, 66u8]));
            assert(!(b@ =~= seq![69u8, 84u8]));
        }
        Err(Errors::ParseError(ParsingErrors::TimeSystem))
    }
}

/// Parses the bytes of an ISO-8601 date-time into its calendar fields,
/// nanoseconds and time scale.
#[verifier::rlimit(100)]
#[verifier::spinoff_prover]
pub fn parse_gregorian(s: &str) -> (r: Result<(i32, u8, u8, u8, u8, u8, u32, TimeSystem), Errors>)
    ensures
        r == spec_parse_gregorian(s.spec_bytes()),
{
    let b = s.as_bytes();
    let n = b.len();
    if n < 19 {
        return Err(Errors::ParseError(ParsingErrors::ISO8601));
    }
    let sep = b[10];
    let shape_fixed = check_digits(b, 0, 4) && b[4] == 45 && check_digits(b, 5, 7) && b[7] == 45
        && check_digits(b, 8, 10) && (sep == 84 || !is_word_byte_exec(sep)) && check_digits(
        b,
        11,
        13,
    ) && b[13] == 58 && check_digits(b, 14, 16) && b[16] == 58 && check_digits(b, 17, 19);
    if !shape_fixed {
        return Err(Errors::ParseError(ParsingErrors::ISO8601));
    }
    let fs: usize = if n >= 20 && b[19] == 46 {
        20
    } else {
        19
    };
    let fe = find_digit_run_end(b, fs);
    let ts: usize = if fe < n && !is_word_byte_exec(b[fe]) {
        fe + 1
    } else {
        fe
    };
    let tag_len = n - ts;
    if !(tag_len == 0 || (2 <= tag_len && tag_len <= 3 && check_word_bytes(b, ts, n))) {
        return Err(Errors::ParseError(ParsingErrors::ISO8601));
    }
    if fe - fs > 9 {
        return Err(Errors::ParseError(ParsingErrors::ISO8601));
    }
    let system: TimeSystem = if tag_len == 0 {
        TimeSystem::UTC
    } else {
        match time_system_from_bytes(&b[ts..n]) {
            Ok(sys) => sys,
            Err(e) => {
                return Err(e);
            },
        }
    };
    proof {
        lemma_digit_run_end(s.spec_bytes(), fs as int);
    }
    let frac_digits = parse_digits(b, fs, fe);
    proof {
        lemma_digits_val_bound(s.spec_bytes(), fs as int, fe as int);
        lemma_pow10_adds(((fe - fs)) as nat, (9 - (fe - fs)) as nat);
        reveal_with_fuel(pow10, 10);
        let l = (fe - fs) as nat;
        assert(digits_val(s.spec_bytes(), fs as int, fe as int) * pow10((9 - l) as nat) < pow10(l)
            * pow10((9 - l) as nat)) by (nonlinear_arith)
            requires
                0 <= digits_val(s.spec_bytes(), fs as int, fe as int) < pow10(l),
                pow10((9 - l) as nat) >= 1,
        ;
    }
    let nanos: u32 = frac_digits * pow10_exec(9 - (fe - fs));
    let year = parse_digits(b, 0, 4);
    let month = parse_digits(b, 5, 7);
    let day = parse_digits(b, 8, 10);
    let hour = parse_digits(b, 11, 13);
    let minute = parse_digits(b, 14, 16);
    let second = parse_digits(b, 17, 19);
    proof {
        reveal_with_fuel(pow10, 10);
    }
    Ok(
        (
            year as i32,
            month as u8,
            day as u8,
            hour as u8,
            minute as u8,
            second as u8,
            nanos,
            system,
        ),
    )
}

/// Whether every byte in `[i, j)` is a word byte.
fn check_word_bytes(b: &[u8], i: usize, j: usize) -> (r: bool)
    requires
        i <= j <= b@.len(),
    ensures
        r == forall|k: int| i <= k < j ==> is_word_byte(#[trigger] b@[k]),
{
    let mut k = i;
    while k < j
        invariant
            i <= k <= j <= b@.len(),
            forall|q: int| i <= q < k ==> is_word_byte(#[trigger] b@[q]),
        decreases j - k,
    {
        if !is_word_byte_exec(b[k]) {
            return false;
        }
        k = k + 1;
    }
    true
}

} // verus!
