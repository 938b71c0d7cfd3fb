//! Decimal text of scalars.
//!
//! A scalar is written as a sign, the whole part, and, where the fraction is
//! not zero, a point and the fraction without trailing zeros.

use crate::scalar::UNIT;
use vstd::prelude::*;

verus! {

/// The character of a decimal digit; the digits follow `'0'`, whose code is
/// 48.
pub open spec fn digit(d: int) -> char
    recommends
        0 <= d <= 9,
{
    (d + 48) as char
}

/// The decimal digits of a natural number, most significant first.
pub open spec fn digits(n: nat) -> Seq<char>
    decreases n,
{
    if n < 10 {
        seq![digit(n as int)]
    } else {
        digits(n / 10).push(digit((n % 10) as int))
    }
}

/// The last `width` decimal digits of a natural number, most significant
/// first, with leading zeros.
pub open spec fn padded(n: nat, width: nat) -> Seq<char>
    decreases width,
{
    if width == 0 {
        Seq::empty()
    } else {
        padded(n / 10, (width - 1) as nat).push(digit((n % 10) as int))
    }
}

/// The digits of a fraction of `width` places, without trailing zeros.
pub open spec fn trimmed(n: nat, width: nat) -> Seq<char>
    decreases width,
{
    if width == 0 {
        Seq::empty()
    } else if n % 10 == 0 {
        trimmed(n / 10, (width - 1) as nat)
    } else {
        padded(n, width)
    }
}

/// The decimal text of the number that has the given sign and the given
/// count of steps.
pub open spec fn decimal(negative: bool, size: nat) -> Seq<char> {
    let sign = if negative {
        seq!['-']
    } else {
        Seq::empty()
    };
    let whole = digits(size / (UNIT as nat));
    let fraction = size % (UNIT as nat);
    if fraction == 0 {
        sign + whole
    } else {
        sign + whole + seq!['.'] + trimmed(fraction, 13)
    }
}

/// The text of a decimal digit.
fn digit_text(d: u64) -> (text: &'static str)
    requires
        d <= 9,
    ensures
        text@ == seq![digit(d as int)],
{
    proof {
        reveal_strlit("0");
        reveal_strlit("1");
        reveal_strlit("2");
        reveal_strlit("3");
        reveal_strlit("4");
        reveal_strlit("5");
        reveal_strlit("6");
        reveal_strlit("7");
        reveal_strlit("8");
        reveal_strlit("9");
    }
    let text = if d == 0 {
        "0"
    } else if d == 1 {
        "1"
    } else if d == 2 {
        "2"
    } else if d == 3 {
        "3"
    } else if d == 4 {
        "4"
    } else if d == 5 {
        "5"
    } else if d == 6 {
        "6"
    } else if d == 7 {
        "7"
    } else if d == 8 {
        "8"
    } else {
        "9"
    };
    assert(text@ =~= seq![digit(d as int)]);
    text
}

/// Appends the decimal digits of `n`.
fn push_digits(out: &mut String, n: u64)
    ensures
        final(out)@ == old(out)@ + digits(n as nat),
    decreases n,
{
    if n >= 10 {
        push_digits(out, n / 10);
    }
    out.append(digit_text(n % 10));
    assert(out@ =~= old(out)@ + digits(n as nat));
}

/// Appends the last `width` decimal digits of `n`.
fn push_padded(out: &mut String, n: u64, width: u8)
    ensures
        final(out)@ == old(out)@ + padded(n as nat, width as nat),
    decreases width,
{
    if width > 0 {
        push_padded(out, n / 10, width - 1);
        out.append(digit_text(n % 10));
    }
    assert(out@ =~= old(out)@ + padded(n as nat, width as nat));
}

/// Appends the digits of a fraction of `width` places, without trailing
/// zeros.
fn push_trimmed(out: &mut String, n: u64, width: u8)
    ensures
        final(out)@ == old(out)@ + trimmed(n as nat, width as nat),
{
    let mut rest: u64 = n;
    let mut places: u8 = width;
    while places > 0 && rest % 10 == 0
        invariant
            trimmed(rest as nat, places as nat) == trimmed(n as nat, width as nat),
        decreases places,
    {
        rest = rest / 10;
        places = places - 1;
    }
    push_padded(out, rest, places);
}

/// Appends the decimal text of the number that has the given sign and the
/// given count of steps.
pub(crate) fn push_decimal(out: &mut String, negative: bool, size: u64)
    ensures
        final(out)@ == old(out)@ + decimal(negative, size as nat),
{
    if negative {
        proof {
            reveal_strlit("-");
        }
        out.append("-");
    }
    let unit: u64 = 10_000_000_000_000;
    push_digits(out, size / unit);
    let fraction: u64 = size % unit;
    if fraction != 0 {
        proof {
            reveal_strlit(".");
        }
        out.append(".");
        push_trimmed(out, fraction, 13);
    }
    assert(out@ =~= old(out)@ + decimal(negative, size as nat));
}

} // verus!
