use vstd::prelude::*;

verus! {

use crate::convert::celsius_of;
use crate::convert::fahrenheit_of;
use crate::temp::Temp;

/// Core algebra of the round trip, over bare integers: if
/// `nf/df == (nc/dc) * 9/5 + 32` and `n2/d2 == (nf/df - 32) * 5/9`,
/// then `n2/d2 == nc/dc`.
proof fn lemma_round_trip_algebra(nc: int, dc: int, nf: int, df: int, n2: int, d2: int)
    by (nonlinear_arith)
    requires
        dc > 0,
        df > 0,
        d2 > 0,
        nf * (5 * dc) == (9 * nc + 160 * dc) * df,
        n2 * (9 * df) == (5 * nf - 160 * df) * d2,
    ensures
        n2 * dc == nc * d2,
{
}

/// Core algebra of the threshold agreement, over bare integers: if
/// `nf/df == (nc/dc) * 9/5 + 32`, then `nc/dc >= -273.15` exactly when
/// `nf/df >= -459.67`.
proof fn lemma_threshold_algebra(nc: int, dc: int, nf: int, df: int)
    by (nonlinear_arith)
    requires
        dc > 0,
        df > 0,
        nf * (5 * dc) == (9 * nc + 160 * dc) * df,
    ensures
        (100 * nc >= -27315 * dc) <==> (100 * nf >= -45967 * df),
{
}

/// Round trip: for any Celsius temperature at or above absolute zero,
/// converting to Fahrenheit and back to Celsius yields the same value.
/// Both conversions are exact over rationals, so the round trip is an
/// exact equality, not merely an approximation.
pub proof fn lemma_round_trip(c: Temp, f: Temp, c2: Temp)
    requires
        c.wf(),
        f.wf(),
        c2.wf(),
        c.ge_celsius_min(),
        fahrenheit_of(c, f),
        celsius_of(f, c2),
    ensures
        c2.same_value(c),
{
    lemma_round_trip_algebra(
        c.num as int,
        c.den as int,
        f.num as int,
        f.den as int,
        c2.num as int,
        c2.den as int,
    );
}

/// The two absolute-zero bounds agree: a Celsius temperature is at or
/// above -273.15 exactly when its Fahrenheit image is at or above -459.67.
/// In particular, a successful Celsius-to-Fahrenheit conversion always
/// yields a value the reverse conversion accepts.
pub proof fn lemma_thresholds_agree(c: Temp, f: Temp)
    requires
        c.wf(),
        f.wf(),
        fahrenheit_of(c, f),
    ensures
        c.ge_celsius_min() <==> f.ge_fahrenheit_min(),
{
    lemma_threshold_algebra(c.num as int, c.den as int, f.num as int, f.den as int);
}

} // verus!
