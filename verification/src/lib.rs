//! Temperature conversion between Celsius and Fahrenheit.
//!
//! Temperatures are held exactly as rational numbers, so the conversion
//! formulas and the absolute-zero bounds are checked without rounding.

pub mod convert;
pub mod laws;
pub mod parse;
pub mod round;
pub mod temp;

pub use convert::celsius_to_fahrenheit;
pub use convert::fahrenheit_to_celsius;
pub use convert::Scale;
pub use convert::TempError;
pub use temp::Temp;
