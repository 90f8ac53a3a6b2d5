use vstd::prelude::*;

verus! {

use crate::temp::Temp;

/// Failure of a temperature conversion.
#[derive(Clone, Copy, Debug, PartialEq, Eq, Structural)]
pub enum TempError {
    /// The input lies below absolute zero in its own scale.
    BelowAbsoluteZero,
}

/// The scale a temperature value was measured in.
#[derive(Clone, Copy, Debug, PartialEq, Eq, Structural)]
pub enum Scale {
    Celsius,
    Fahrenheit,
}

/// `f` denotes exactly `c * 9/5 + 32`:
/// cross-multiplied, `f == (9*c.num + 160*c.den) / (5*c.den)`.
pub open spec fn fahrenheit_of(c: Temp, f: Temp) -> bool {
    f.num * (5 * c.den) == (9 * c.num + 160 * c.den) * f.den
}

/// `c` denotes exactly `(f - 32) * 5/9`:
/// cross-multiplied, `c == (5*f.num - 160*f.den) / (9*f.den)`.
pub open spec fn celsius_of(f: Temp, c: Temp) -> bool {
    c.num * (9 * f.den) == (5 * f.num - 160 * f.den) * c.den
}

/// The exact result of converting `c` to Fahrenheit fits in `i64` fields.
pub open spec fn to_fahrenheit_in_range(c: Temp) -> bool {
    -0x8000_0000_0000_0000 <= 9 * c.num + 160 * c.den <= 0x7fff_ffff_ffff_ffff
        && 5 * c.den <= 0x7fff_ffff_ffff_ffff
}

/// The exact result of converting `f` to Celsius fits in `i64` fields.
pub open spec fn to_celsius_in_range(f: Temp) -> bool {
    -0x8000_0000_0000_0000 <= 5 * f.num - 160 * f.den <= 0x7fff_ffff_ffff_ffff
        && 9 * f.den <= 0x7fff_ffff_ffff_ffff
}

/// Converts a Celsius temperature to Fahrenheit.
///
/// Succeeds exactly when `celsius` is at least -273.15 (absolute zero);
/// the result is then `celsius * 9/5 + 32`, computed without rounding.
pub fn celsius_to_fahrenheit(celsius: Temp) -> (r: Result<Temp, TempError>)
    requires
        celsius.wf(),
        celsius.ge_celsius_min() ==> to_fahrenheit_in_range(celsius),
    ensures
        match r {
            Ok(f) => {
                &&& celsius.ge_celsius_min()
                &&& f.num == 9 * celsius.num + 160 * celsius.den
                &&& f.den == 5 * celsius.den
                &&& f.wf()
                &&& fahrenheit_of(celsius, f)
            },
            Err(e) => e == TempError::BelowAbsoluteZero && !celsius.ge_celsius_min(),
        },
{
    if (celsius.num as i128) * 100 < -27315 * (celsius.den as i128) {
        return Err(TempError::BelowAbsoluteZero);
    }
    let num: i128 = 9 * (celsius.num as i128) + 160 * (celsius.den as i128);
    let den: i128 = 5 * (celsius.den as i128);
    Ok(Temp { num: num as i64, den: den as i64 })
}

/// Converts a Fahrenheit temperature to Celsius.
///
/// Succeeds exactly when `fahrenheit` is at least -459.67 (absolute zero);
/// the result is then `(fahrenheit - 32) * 5/9`, computed without rounding.
pub fn fahrenheit_to_celsius(fahrenheit: Temp) -> (r: Result<Temp, TempError>)
    requires
        fahrenheit.wf(),
        fahrenheit.ge_fahrenheit_min() ==> to_celsius_in_range(fahrenheit),
    ensures
        match r {
            Ok(c) => {
                &&& fahrenheit.ge_fahrenheit_min()
                &&& c.num == 5 * fahrenheit.num - 160 * fahrenheit.den
                &&& c.den == 9 * fahrenheit.den
                &&& c.wf()
                &&& celsius_of(fahrenheit, c)
            },
            Err(e) => e == TempError::BelowAbsoluteZero && !fahrenheit.ge_fahrenheit_min(),
        },
{
    if (fahrenheit.num as i128) * 100 < -45967 * (fahrenheit.den as i128) {
        return Err(TempError::BelowAbsoluteZero);
    }
    let num: i128 = 5 * (fahrenheit.num as i128) - 160 * (fahrenheit.den as i128);
    let den: i128 = 9 * (fahrenheit.den as i128);
    Ok(Temp { num: num as i64, den: den as i64 })
}

/// Converts a temperature measured in `from` to the other scale.
///
/// This is the whole decision a caller has to make: `Celsius` means
/// "convert to Fahrenheit", `Fahrenheit` means "convert to Celsius".
pub fn convert(from: Scale, value: Temp) -> (r: Result<Temp, TempError>)
    requires
        value.wf(),
        from == Scale::Celsius && value.ge_celsius_min() ==> to_fahrenheit_in_range(value),
        from == Scale::Fahrenheit && value.ge_fahrenheit_min() ==> to_celsius_in_range(value),
    ensures
        match from {
            Scale::Celsius => match r {
                Ok(f) => value.ge_celsius_min() && f.wf() && fahrenheit_of(value, f),
                Err(e) => e == TempError::BelowAbsoluteZero && !value.ge_celsius_min(),
            },
            Scale::Fahrenheit => match r {
                Ok(c) => value.ge_fahrenheit_min() && c.wf() && celsius_of(value, c),
                Err(e) => e == TempError::BelowAbsoluteZero && !value.ge_fahrenheit_min(),
            },
        },
{
    match from {
        Scale::Celsius => celsius_to_fahrenheit(value),
        Scale::Fahrenheit => fahrenheit_to_celsius(value),
    }
}

} // verus!
