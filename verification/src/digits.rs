//! Decimal rendering of the numbers that appear in dates, times, delays and
//! walk durations: zero-padded two- and four-digit fields and plain decimals.

use vstd::prelude::*;

verus! {

/// The character for a single decimal digit.
pub open spec fn digit_char(d: int) -> char {
    if d == 0 {
        '0'
    } else if d == 1 {
        '1'
    } else if d == 2 {
        '2'
    } else if d == 3 {
        '3'
    } else if d == 4 {
        '4'
    } else if d == 5 {
        '5'
    } else if d == 6 {
        '6'
    } else if d == 7 {
        '7'
    } else if d == 8 {
        '8'
    } else {
        '9'
    }
}

/// A number below 100 as two digits, zero-padded.
pub open spec fn pad2(n: int) -> Seq<char> {
    seq![digit_char(n / 10), digit_char(n % 10)]
}

/// A number below 10000 as four digits, zero-padded.
pub open spec fn pad4(n: int) -> Seq<char> {
    seq![
        digit_char(n / 1000),
        digit_char(n / 100 % 10),
        digit_char(n / 10 % 10),
        digit_char(n % 10),
    ]
}

/// A non-negative number in plain decimal, no padding.
pub open spec fn dec_str(n: int) -> Seq<char>
    decreases n,
{
    if n < 10 {
        seq![digit_char(n)]
    } else {
        dec_str(n / 10).push(digit_char(n % 10))
    }
}

/// The one-character string for a decimal digit.
pub fn digit_str(d: u8) -> (r: &'static str)
    requires
        d < 10,
    ensures
        r@ == seq![digit_char(d as int)],
{
    let r: &'static str = if d == 0 {
        "0"
    } else if d == 1 {
        "1"
    } else if d == 2 {
        "2"
    } else if d == 3 {
        "3"
    } else if d == 4 {
        "4"
    } else if d == 5 {
        "5"
    } else if d == 6 {
        "6"
    } else if d == 7 {
        "7"
    } else if d == 8 {
        "8"
    } else {
        "9"
    };
    proof {
        reveal_strlit("0");
        reveal_strlit("1");
        reveal_strlit("2");
        reveal_strlit("3");
        reveal_strlit("4");
        reveal_strlit("5");
        reveal_strlit("6");
        reveal_strlit("7");
        reveal_strlit("8");
        reveal_strlit("9");
        assert(r@ =~= seq![digit_char(d as int)]);
    }
    r
}

/// Appends a number below 100 as two zero-padded digits.
pub fn push_pad2(out: &mut String, n: u8)
    requires
        n < 100,
    ensures
        final(out)@ == old(out)@ + pad2(n as int),
{
    out.append(digit_str(n / 10));
    out.append(digit_str(n % 10));
    proof {
        assert(final(out)@ =~= old(out)@ + pad2(n as int));
    }
}

/// Appends a number below 10000 as four zero-padded digits.
pub fn push_pad4(out: &mut String, n: u16)
    requires
        n < 10000,
    ensures
        final(out)@ == old(out)@ + pad4(n as int),
{
    out.append(digit_str((n / 1000) as u8));
    out.append(digit_str((n / 100 % 10) as u8));
    out.append(digit_str((n / 10 % 10) as u8));
    out.append(digit_str((n % 10) as u8));
    proof {
        assert(final(out)@ =~= old(out)@ + pad4(n as int));
    }
}

/// Appends a number in plain decimal.
pub fn push_dec(out: &mut String, n: u16)
    ensures
        final(out)@ == old(out)@ + dec_str(n as int),
    decreases n,
{
    if n < 10 {
        out.append(digit_str(n as u8));
        proof {
            assert(final(out)@ =~= old(out)@ + dec_str(n as int));
        }
    } else {
        push_dec(out, n / 10);
        out.append(digit_str((n % 10) as u8));
        proof {
            assert(final(out)@ =~= old(out)@ + dec_str(n as int));
        }
    }
}

} // verus!
