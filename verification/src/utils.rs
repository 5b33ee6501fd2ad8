//! Shared helpers: the default palette and number display.

pub mod svg;

use vstd::prelude::*;
use crate::num::{abs_val, dec_str, fmt_milli_1dp, milli_1dp, u64_str};

verus! {

/// The palette used when neither the request nor a theme supplies colors.
pub fn get_default_colors() -> (r: Vec<&'static str>)
    ensures
        r@.map_values(|s: &str| s@) =~= seq![
            "#0000FF"@,
            "#FFB3B3"@,
            "#B3E0FF"@,
            "#FFE6B3"@,
            "#B3FFB3"@,
            "#E6B3FF"@,
            "#FFD9B3"@,
        ],
{
    let mut r: Vec<&'static str> = Vec::new();
    r.push("#0000FF");
    r.push("#FFB3B3");
    r.push("#B3E0FF");
    r.push("#FFE6B3");
    r.push("#B3FFB3");
    r.push("#E6B3FF");
    r.push("#FFD9B3");
    r
}

/// How [`format_number`] displays a milli-unit quantity: whole values show
/// no decimals, anything else shows one.
pub open spec fn format_number_spec(m: int) -> Seq<char> {
    let a = abs_val(m);
    if a % 1000 == 0 {
        if m < 0 && a > 0 {
            seq!['-'] + dec_str(a / 1000)
        } else {
            dec_str(a / 1000)
        }
    } else {
        milli_1dp(m)
    }
}

/// Displays a milli-unit quantity: whole values without decimals, others
/// with one decimal.
pub fn format_number(m: i64) -> (r: String)
    requires
        m > i64::MIN,
    ensures
        r@ == format_number_spec(m as int),
{
    let a: u64 = if m < 0 {
        (-m) as u64
    } else {
        m as u64
    };
    if a % 1000 == 0 {
        let digits = u64_str(a / 1000);
        if m < 0 && a > 0 {
            let mut s = String::from_str("-");
            proof {
                reveal_strlit("-");
            }
            s.append(digits.as_str());
            proof {
                assert(s@ =~= format_number_spec(m as int));
            }
            s
        } else {
            digits
        }
    } else {
        fmt_milli_1dp(m)
    }
}

} // verus!
