//! Rendering numbers and calendar fields as text: decimal digit strings,
//! zero padding, and the ISO-8601 shape the epoch accessors print.

use crate::TimeSystem;
use vstd::prelude::*;

verus! {

/// The character for one decimal digit.
pub open spec fn dec_digit_char(d: int) -> char {
    if d == 0 {
        '0'
    } else if d == 1 {
        '1'
    } else if d == 2 {
        '2'
    } else if d == 3 {
        '3'
    } else if d == 4 {
        '4'
    } else if d == 5 {
        '5'
    } else if d == 6 {
        '6'
    } else if d == 7 {
        '7'
    } else if d == 8 {
        '8'
    } else {
        '9'
    }
}

/// The decimal digits of a non-negative number, most significant first.
pub open spec fn dec_str(v: int) -> Seq<char>
    decreases v,
{
    if v < 10 {
        seq![dec_digit_char(v)]
    } else {
        dec_str(v / 10).push(dec_digit_char(v % 10))
    }
}

/// The decimal digits of a non-negative number, left-padded with zeros to
/// at least the given width.
pub open spec fn dec_str_padded(v: int, w: int) -> Seq<char>
    decreases w,
{
    if dec_str(v).len() >= w {
        dec_str(v)
    } else {
        seq!['0'] + dec_str_padded(v, w - 1)
    }
}

/// A year as the calendar accessors print it: four digits, zero-padded,
/// with a leading minus sign counted in the width.
pub open spec fn year_str(y: int) -> Seq<char> {
    if y >= 0 {
        dec_str_padded(y, 4)
    } else {
        seq!['-'] + dec_str_padded(-y, 3)
    }
}

/// The name of a time scale as it is printed after a date-time.
pub open spec fn scale_chars(ts: TimeSystem) -> Seq<char> {
    match ts {
        TimeSystem::ET => seq!['E', 'T'],
        TimeSystem::TAI => seq!['T', 'A', 'I'],
        TimeSystem::TT => seq!['T', 'T'],
        TimeSystem::TDB => seq!['T', 'D', 'B'],
        TimeSystem::UTC => seq!['U', 'T', 'C'],
    }
}

/// The ISO-8601 rendering of calendar fields followed by a scale name;
/// the fraction is omitted when the nanoseconds are zero, and printed as
/// a plain number otherwise.
pub open spec fn gregorian_str_chars(
    y: int,
    m: int,
    d: int,
    h: int,
    mi: int,
    s: int,
    ns: int,
    scale: Seq<char>,
) -> Seq<char> {
    year_str(y) + seq!['-'] + dec_str_padded(m, 2) + seq!['-'] + dec_str_padded(d, 2) + seq!['T']
        + dec_str_padded(h, 2) + seq![':'] + dec_str_padded(mi, 2) + seq![':'] + dec_str_padded(
        s,
        2,
    ) + (if ns == 0 {
        Seq::<char>::empty()
    } else {
        seq!['.'] + dec_str(ns)
    }) + seq![' '] + scale
}

/// A one-character string for one decimal digit.
fn digit_str(d: u8) -> (r: &'static str)
    requires
        d < 10,
    ensures
        r@ == seq![dec_digit_char(d as int)],
{
    proof {
        reveal_strlit("0");
        reveal_strlit("1");
        reveal_strlit("2");
        reveal_strlit("3");
        reveal_strlit("4");
        reveal_strlit("5");
        reveal_strlit("6");
        reveal_strlit("7");
        reveal_strlit("8");
        reveal_strlit("9");
    }
    let r: &'static str = if d == 0 {
        "0"
    } else if d == 1 {
        "1"
    } else if d == 2 {
        "2"
    } else if d == 3 {
        "3"
    } else if d == 4 {
        "4"
    } else if d == 5 {
        "5"
    } else if d == 6 {
        "6"
    } else if d == 7 {
        "7"
    } else if d == 8 {
        "8"
    } else {
        "9"
    };
    proof {
        assert(r@ =~= seq![dec_digit_char(d as int)]);
    }
    r
}

/// Appends the decimal digits of a number.
pub fn append_dec(out: &mut String, v: u32)
    ensures
        final(out)@ == old(out)@ + dec_str(v as int),
    decreases v,
{
    if v < 10 {
        out.append(digit_str(v as u8));
        proof {
            assert(out@ =~= old(out)@ + dec_str(v as int));
        }
    } else {
        append_dec(out, v / 10);
        out.append(digit_str((v % 10) as u8));
        proof {
            assert(out@ =~= old(out)@ + dec_str(v as int));
        }
    }
}

/// A number below ten to the `n` prints as at most `n` digits.
proof fn lemma_dec_str_len_bound(v: int, n: nat)
    requires
        0 <= v,
        v < crate::parse::pow10(n),
        n >= 1,
    ensures
        dec_str(v).len() <= n,
    decreases n,
{
    if v >= 10 {
        assert(v / 10 < crate::parse::pow10((n - 1) as nat)) by (nonlinear_arith)
            requires
                0 <= v,
                v < crate::parse::pow10(n),
                crate::parse::pow10(n) == 10 * crate::parse::pow10((n - 1) as nat),
        ;
        lemma_dec_str_len_bound(v / 10, (n - 1) as nat);
    }
}

/// How many decimal digits a number prints as.
fn dec_len(v: u32) -> (l: usize)
    ensures
        l == dec_str(v as int).len(),
        1 <= l <= 10,
    decreases v,
{
    proof {
        reveal_with_fuel(crate::parse::pow10, 11);
        lemma_dec_str_len_bound(v as int, 10);
    }
    if v < 10 {
        1
    } else {
        1 + dec_len(v / 10)
    }
}

/// Appends the decimal digits of a number, left-padded with zeros to at
/// least the given width.
pub fn append_dec_padded(out: &mut String, v: u32, w: usize)
    requires
        w <= 10,
    ensures
        final(out)@ == old(out)@ + dec_str_padded(v as int, w as int),
    decreases w,
{
    if dec_len(v) >= w {
        append_dec(out, v);
    } else {
        proof {
            reveal_strlit("0");
        }
        out.append("0");
        append_dec_padded(out, v, w - 1);
        proof {
            assert(out@ =~= old(out)@ + dec_str_padded(v as int, w as int));
        }
    }
}

/// Appends a year: four digits, zero-padded, with a leading minus sign
/// counted in the width.
pub fn append_year(out: &mut String, y: i32)
    ensures
        final(out)@ == old(out)@ + year_str(y as int),
{
    if y >= 0 {
        append_dec_padded(out, y as u32, 4);
    } else {
        proof {
            reveal_strlit("-");
        }
        out.append("-");
        let mag: u32 = if y == i32::MIN {
            2_147_483_648
        } else {
            (-y) as u32
        };
        append_dec_padded(out, mag, 3);
        proof {
            assert(out@ =~= old(out)@ + year_str(y as int));
        }
    }
}

/// The name of a time scale as it is printed after a date-time.
fn scale_str(ts: TimeSystem) -> (r: &'static str)
    ensures
        r@ == scale_chars(ts),
{
    proof {
        reveal_strlit("ET");
        reveal_strlit("TAI");
        reveal_strlit("TT");
        reveal_strlit("TDB");
        reveal_strlit("UTC");
    }
    let r: &'static str = match ts {
        TimeSystem::ET => "ET",
        TimeSystem::TAI => "TAI",
        TimeSystem::TT => "TT",
        TimeSystem::TDB => "TDB",
        TimeSystem::UTC => "UTC",
    };
    proof {
        assert(r@ =~= scale_chars(ts));
    }
    r
}

/// Renders calendar fields in the ISO-8601 shape, with the scale name
/// appended after a space.
pub fn gregorian_fields_str(
    y: i32,
    m: u8,
    d: u8,
    h: u8,
    mi: u8,
    s: u8,
    ns: u32,
    ts: TimeSystem,
) -> (r: String)
    ensures
        r@ == gregorian_str_chars(
            y as int,
            m as int,
            d as int,
            h as int,
            mi as int,
            s as int,
            ns as int,
            scale_chars(ts),
        ),
{
    proof {
        reveal_strlit("-");
        reveal_strlit("T");
        reveal_strlit(":");
        reveal_strlit(".");
        reveal_strlit(" ");
    }
    let mut out = String::new();
    append_year(&mut out, y);
    out.append("-");
    append_dec_padded(&mut out, m as u32, 2);
    out.append("-");
    append_dec_padded(&mut out, d as u32, 2);
    out.append("T");
    append_dec_padded(&mut out, h as u32, 2);
    out.append(":");
    append_dec_padded(&mut out, mi as u32, 2);
    out.append(":");
    append_dec_padded(&mut out, s as u32, 2);
    if ns != 0 {
        out.append(".");
        append_dec(&mut out, ns);
    }
    out.append(" ");
    out.append(scale_str(ts));
    proof {
        assert(out@ =~= gregorian_str_chars(
            y as int,
            m as int,
            d as int,
            h as int,
            mi as int,
            s as int,
            ns as int,
            scale_chars(ts),
        ));
    }
    out
}

} // verus!
