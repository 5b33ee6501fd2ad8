//! Decimal rendering of fixed-point quantities.
//!
//! The engine counts every value and coordinate in thousandths.  The
//! functions here turn such a quantity into the decimal text that appears in
//! the generated drawing, with zero, one or two digits after the point,
//! rounding half away from zero.  Each function's result is pinned exactly
//! by a spec-level sequence of characters.

use vstd::prelude::*;

verus! {

/// The character for a single decimal digit.
pub open spec fn digit_char(d: int) -> char {
    if d == 0 {
        '0'
    } else if d == 1 {
        '1'
    } else if d == 2 {
        '2'
    } else if d == 3 {
        '3'
    } else if d == 4 {
        '4'
    } else if d == 5 {
        '5'
    } else if d == 6 {
        '6'
    } else if d == 7 {
        '7'
    } else if d == 8 {
        '8'
    } else {
        '9'
    }
}

/// The usual decimal numeral of a natural number, most significant digit
/// first, with no leading zeros (except for the numeral of zero itself).
pub open spec fn dec_str(n: nat) -> Seq<char>
    decreases n,
{
    if n < 10 {
        seq![digit_char(n as int)]
    } else {
        dec_str(n / 10) + seq![digit_char((n % 10) as int)]
    }
}

/// A quantity of `t` tenths written with one digit after the point.
pub open spec fn tenths_str(t: nat) -> Seq<char> {
    dec_str(t / 10) + seq!['.'] + seq![digit_char((t % 10) as int)]
}

/// A quantity of `h` hundredths written with two digits after the point.
pub open spec fn hundredths_str(h: nat) -> Seq<char> {
    dec_str(h / 100) + seq!['.'] + seq![digit_char(((h / 10) % 10) as int)] + seq![
        digit_char((h % 10) as int),
    ]
}

/// Magnitude of an integer.
pub open spec fn abs_val(m: int) -> nat {
    if m < 0 {
        (-m) as nat
    } else {
        m as nat
    }
}

/// A milli-unit quantity rendered with no decimals, rounded half away from
/// zero.  A sign appears only when the rounded magnitude is non-zero.
pub open spec fn milli_0dp(m: int) -> Seq<char> {
    let u = (abs_val(m) + 500) / 1000;
    if m < 0 && u > 0 {
        seq!['-'] + dec_str(u)
    } else {
        dec_str(u)
    }
}

/// A milli-unit quantity rendered with one decimal, rounded half away from
/// zero.
pub open spec fn milli_1dp(m: int) -> Seq<char> {
    let t = (abs_val(m) + 50) / 100;
    if m < 0 && t > 0 {
        seq!['-'] + tenths_str(t)
    } else {
        tenths_str(t)
    }
}

/// A milli-unit quantity rendered with two decimals, rounded half away from
/// zero.
pub open spec fn milli_2dp(m: int) -> Seq<char> {
    let h = (abs_val(m) + 5) / 10;
    if m < 0 && h > 0 {
        seq!['-'] + hundredths_str(h)
    } else {
        hundredths_str(h)
    }
}

/// The text of a single decimal digit.
fn digit_str(d: u64) -> (r: &'static str)
    requires
        d < 10,
    ensures
        r@ == seq![digit_char(d as int)],
{
    proof {
        reveal_strlit("0");
        reveal_strlit("1");
        reveal_strlit("2");
        reveal_strlit("3");
        reveal_strlit("4");
        reveal_strlit("5");
        reveal_strlit("6");
        reveal_strlit("7");
        reveal_strlit("8");
        reveal_strlit("9");
    }
    let r = match d {
        0 => "0",
        1 => "1",
        2 => "2",
        3 => "3",
        4 => "4",
        5 => "5",
        6 => "6",
        7 => "7",
        8 => "8",
        _ => "9",
    };
    proof {
        assert(r@ =~= seq![digit_char(d as int)]);
    }
    r
}

/// The decimal numeral of a natural number.
pub fn u64_str(n: u64) -> (r: String)
    ensures
        r@ == dec_str(n as nat),
    decreases n,
{
    if n < 10 {
        String::from_str(digit_str(n))
    } else {
        let mut s = u64_str(n / 10);
        s.append(digit_str(n % 10));
        proof {
            assert(s@ =~= dec_str(n as nat));
        }
        s
    }
}

/// The magnitude of an integer that is not `i64::MIN`.
fn abs_u64(m: i64) -> (r: u64)
    requires
        m > i64::MIN,
    ensures
        r == abs_val(m as int),
{
    if m < 0 {
        (-m) as u64
    } else {
        m as u64
    }
}

/// A signed quantity of tenths, rendered with one decimal.  This is the
/// shape of every coordinate and of most value labels in the drawing.
fn signed_tenths_str(neg: bool, t: u64) -> (r: String)
    ensures
        r@ == if neg && t > 0 {
            seq!['-'] + tenths_str(t as nat)
        } else {
            tenths_str(t as nat)
        },
{
    let mut s = if neg && t > 0 {
        proof {
            reveal_strlit("-");
        }
        String::from_str("-")
    } else {
        String::new()
    };
    let whole = u64_str(t / 10);
    s.append(whole.as_str());
    proof {
        reveal_strlit(".");
    }
    s.append(".");
    s.append(digit_str(t % 10));
    proof {
        assert(s@ =~= if neg && t > 0 {
            seq!['-'] + tenths_str(t as nat)
        } else {
            tenths_str(t as nat)
        });
    }
    s
}

/// A milli-unit quantity with one decimal, rounded half away from zero.
pub fn fmt_milli_1dp(m: i64) -> (r: String)
    requires
        m > i64::MIN,
    ensures
        r@ == milli_1dp(m as int),
{
    let a = abs_u64(m);
    let t = (a + 50) / 100;
    signed_tenths_str(m < 0, t)
}

/// A milli-unit quantity with no decimals, rounded half away from zero.
pub fn fmt_milli_0dp(m: i64) -> (r: String)
    requires
        m > i64::MIN,
    ensures
        r@ == milli_0dp(m as int),
{
    let a = abs_u64(m);
    let u = (a + 500) / 1000;
    let digits = u64_str(u);
    if m < 0 && u > 0 {
        let mut s = String::from_str("-");
        proof {
            reveal_strlit("-");
        }
        s.append(digits.as_str());
        proof {
            assert(s@ =~= milli_0dp(m as int));
        }
        s
    } else {
        digits
    }
}

/// A milli-unit quantity with two decimals, rounded half away from zero.
pub fn fmt_milli_2dp(m: i64) -> (r: String)
    requires
        m > i64::MIN,
    ensures
        r@ == milli_2dp(m as int),
{
    let a = abs_u64(m);
    let h = (a + 5) / 10;
    let mut s = if m < 0 && h > 0 {
        proof {
            reveal_strlit("-");
        }
        String::from_str("-")
    } else {
        String::new()
    };
    let whole = u64_str(h / 100);
    s.append(whole.as_str());
    proof {
        reveal_strlit(".");
    }
    s.append(".");
    s.append(digit_str((h / 10) % 10));
    s.append(digit_str(h % 10));
    proof {
        assert(s@ =~= milli_2dp(m as int));
    }
    s
}

} // verus!
