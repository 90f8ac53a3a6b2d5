use vstd::prelude::*;

verus! {

use vstd::arithmetic::div_mod::lemma_div_nonincreasing;
use vstd::arithmetic::div_mod::lemma_fundamental_div_mod;
use vstd::arithmetic::div_mod::lemma_mod_division_less_than_divisor;

use crate::temp::Temp;

/// The value of `t` in hundredths of a degree, rounded to the nearest
/// whole hundredth with ties going away from zero.
pub open spec fn round_centi(t: Temp) -> int {
    if t.num >= 0 {
        (200 * t.num + t.den) / (2 * t.den)
    } else {
        -((200 * (-t.num) + t.den) / (2 * t.den))
    }
}

/// Rounds `t` to hundredths of a degree, for display with two decimals.
///
/// The error bound pins `r` to the nearest hundredth: `r` differs from the
/// exact value `t.num / t.den` degrees by at most half a hundredth.
pub fn to_centi(t: Temp) -> (r: i128)
    requires
        t.wf(),
    ensures
        r == round_centi(t),
        -t.den <= 200 * t.num - 2 * r * t.den <= t.den,
{
    let d: u128 = t.den as u128;
    if t.num >= 0 {
        let a: u128 = 200 * (t.num as u128) + d;
        let q: u128 = a / (2 * d);
        proof {
            lemma_fundamental_div_mod(a as int, 2 * t.den as int);
            lemma_mod_division_less_than_divisor(a as int, 2 * t.den as int);
            lemma_div_nonincreasing(a as int, 2 * t.den as int);
            assert(2 * (q as int) * (t.den as int) == (2 * t.den as int) * (q as int))
                by (nonlinear_arith);
        }
        q as i128
    } else {
        let m: u128 = (-(t.num as i128)) as u128;
        let a: u128 = 200 * m + d;
        let q: u128 = a / (2 * d);
        proof {
            lemma_fundamental_div_mod(a as int, 2 * t.den as int);
            lemma_mod_division_less_than_divisor(a as int, 2 * t.den as int);
            lemma_div_nonincreasing(a as int, 2 * t.den as int);
            assert(2 * (-(q as int)) * (t.den as int) == -((2 * t.den as int) * (q as int)))
                by (nonlinear_arith);
        }
        -(q as i128)
    }
}

/// Splits a count of hundredths into a sign, whole degrees, and the
/// two-digit fraction, ready for printing as `whole.fraction`.
pub fn centi_parts(c: i128) -> (r: (bool, u128, u8))
    requires
        c > -0x8000_0000_0000_0000_0000_0000_0000_0000,
    ensures
        r.0 == (c < 0),
        r.2 < 100,
        c >= 0 ==> 100 * r.1 + r.2 == c,
        c < 0 ==> 100 * r.1 + r.2 == -c,
{
    let neg: bool = c < 0;
    let m: u128 = if neg {
        (-c) as u128
    } else {
        c as u128
    };
    let whole: u128 = m / 100;
    let frac: u8 = (m % 100) as u8;
    proof {
        lemma_fundamental_div_mod(m as int, 100);
        lemma_mod_division_less_than_divisor(m as int, 100);
    }
    (neg, whole, frac)
}

} // verus!
