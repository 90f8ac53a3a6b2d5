use vstd::prelude::*;

verus! {

/// A temperature held exactly as the rational number `num / den` of degrees.
///
/// The scale (Celsius or Fahrenheit) is not part of the value; the caller
/// pairs a `Temp` with the scale it was measured in. Every decimal
/// temperature a user can write down is representable: `-273.15` degrees is
/// `Temp { num: -27315, den: 100 }`.
#[derive(Clone, Copy, Debug, PartialEq, Eq, Structural)]
pub struct Temp {
    /// Numerator: signed count of `1 / den` degree steps.
    pub num: i64,
    /// Denominator: always positive for a well-formed value.
    pub den: i64,
}

impl Temp {
    /// A temperature is well formed when its denominator is positive.
    pub open spec fn wf(self) -> bool {
        self.den > 0
    }

    /// The two values denote the same rational number
    /// (by cross multiplication, exact for well-formed values).
    pub open spec fn same_value(self, other: Temp) -> bool {
        self.num * other.den == other.num * self.den
    }

    /// The value is at least -273.15, absolute zero on the Celsius scale.
    pub open spec fn ge_celsius_min(self) -> bool {
        100 * self.num >= -27315 * self.den
    }

    /// The value is at least -459.67, absolute zero on the Fahrenheit scale.
    pub open spec fn ge_fahrenheit_min(self) -> bool {
        100 * self.num >= -45967 * self.den
    }

    /// A whole number of degrees.
    pub fn from_whole(degrees: i64) -> (r: Temp)
        ensures
            r.num == degrees,
            r.den == 1,
            r.wf(),
    {
        Temp { num: degrees, den: 1 }
    }

    /// A count of hundredths of a degree, e.g. `-27315` for -273.15 degrees.
    pub fn from_centi(centi: i64) -> (r: Temp)
        ensures
            r.num == centi,
            r.den == 100,
            r.wf(),
    {
        Temp { num: centi, den: 100 }
    }

    /// An arbitrary fraction of degrees.
    pub fn new(num: i64, den: i64) -> (r: Temp)
        requires
            den > 0,
        ensures
            r.num == num,
            r.den == den,
            r.wf(),
    {
        Temp { num, den }
    }

    /// Exact comparison of the denoted rational numbers.
    pub fn eq_value(self, other: Temp) -> (r: bool)
        ensures
            r == self.same_value(other),
    {
        proof {
            lemma_i64_mul_fits_i128(self.num as int, other.den as int);
            lemma_i64_mul_fits_i128(other.num as int, self.den as int);
        }
        (self.num as i128) * (other.den as i128) == (other.num as i128) * (self.den as i128)
    }
}

/// The product of two values in `i64` range stays well inside `i128` range.
proof fn lemma_i64_mul_fits_i128(a: int, b: int)
    by (nonlinear_arith)
    requires
        -0x8000_0000_0000_0000 <= a <= 0x7fff_ffff_ffff_ffff,
        -0x8000_0000_0000_0000 <= b <= 0x7fff_ffff_ffff_ffff,
    ensures
        -0x4000_0000_0000_0000_0000_0000_0000_0000 <= a * b
            <= 0x4000_0000_0000_0000_0000_0000_0000_0000,
{
}

} // verus!
