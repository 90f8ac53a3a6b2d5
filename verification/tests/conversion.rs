use tempconv::convert::convert;
use tempconv::{celsius_to_fahrenheit, fahrenheit_to_celsius, Scale, Temp, TempError};

#[test]
fn test_celsius_to_fahrenheit_freezing() {
    let result = celsius_to_fahrenheit(Temp::from_whole(0)).unwrap();
    assert!(result.eq_value(Temp::from_whole(32)));
}

#[test]
fn test_celsius_to_fahrenheit_boiling() {
    let result = celsius_to_fahrenheit(Temp::from_whole(100)).unwrap();
    assert!(result.eq_value(Temp::from_whole(212)));
}

#[test]
fn test_celsius_to_fahrenheit_negative() {
    let result = celsius_to_fahrenheit(Temp::from_whole(-40)).unwrap();
    assert!(result.eq_value(Temp::from_whole(-40))); // -40C = -40F
}

#[test]
fn test_celsius_below_absolute_zero() {
    let result = celsius_to_fahrenheit(Temp::from_whole(-300));
    assert_eq!(result, Err(TempError::BelowAbsoluteZero));
}

#[test]
fn test_fahrenheit_to_celsius_freezing() {
    let result = fahrenheit_to_celsius(Temp::from_whole(32)).unwrap();
    assert!(result.eq_value(Temp::from_whole(0)));
}

#[test]
fn test_fahrenheit_to_celsius_boiling() {
    let result = fahrenheit_to_celsius(Temp::from_whole(212)).unwrap();
    assert!(result.eq_value(Temp::from_whole(100)));
}

#[test]
fn test_fahrenheit_to_celsius_negative() {
    let result = fahrenheit_to_celsius(Temp::from_whole(-40)).unwrap();
    assert!(result.eq_value(Temp::from_whole(-40))); // -40F = -40C
}

#[test]
fn test_fahrenheit_below_absolute_zero() {
    let result = fahrenheit_to_celsius(Temp::from_whole(-500));
    assert_eq!(result, Err(TempError::BelowAbsoluteZero));
}

#[test]
fn test_absolute_zero_celsius() {
    // -273.15 C converts exactly, not merely within 0.01, to -459.67 F
    let result = celsius_to_fahrenheit(Temp::from_centi(-27315)).unwrap();
    assert!(result.eq_value(Temp::from_centi(-45967)));
}

#[test]
fn test_absolute_zero_fahrenheit() {
    // -459.67 F converts exactly, not merely within 0.01, to -273.15 C
    let result = fahrenheit_to_celsius(Temp::from_centi(-45967)).unwrap();
    assert!(result.eq_value(Temp::from_centi(-27315)));
}

#[test]
fn test_round_trip_exact() {
    // Celsius -> Fahrenheit -> Celsius comes back to the same value exactly
    for centi in [-27315i64, -4000, -1, 0, 1, 2137, 10000, 987654321] {
        let c = Temp::from_centi(centi);
        let f = celsius_to_fahrenheit(c).unwrap();
        let back = fahrenheit_to_celsius(f).unwrap();
        assert!(back.eq_value(c));
    }
}

#[test]
fn test_thresholds_agree_at_boundary() {
    // one hundredth below absolute zero fails in either scale
    assert_eq!(
        celsius_to_fahrenheit(Temp::from_centi(-27316)),
        Err(TempError::BelowAbsoluteZero)
    );
    assert_eq!(
        fahrenheit_to_celsius(Temp::from_centi(-45968)),
        Err(TempError::BelowAbsoluteZero)
    );
    // and exactly absolute zero succeeds in either scale
    assert!(celsius_to_fahrenheit(Temp::from_centi(-27315)).is_ok());
    assert!(fahrenheit_to_celsius(Temp::from_centi(-45967)).is_ok());
}

#[test]
fn test_convert_dispatch() {
    let f = convert(Scale::Celsius, Temp::from_whole(100)).unwrap();
    assert!(f.eq_value(Temp::from_whole(212)));
    let c = convert(Scale::Fahrenheit, Temp::from_whole(212)).unwrap();
    assert!(c.eq_value(Temp::from_whole(100)));
    assert_eq!(
        convert(Scale::Celsius, Temp::from_whole(-300)),
        Err(TempError::BelowAbsoluteZero)
    );
    assert_eq!(
        convert(Scale::Fahrenheit, Temp::from_whole(-500)),
        Err(TempError::BelowAbsoluteZero)
    );
}

#[test]
fn test_eq_value_cross_multiplication() {
    assert!(Temp::new(1, 2).eq_value(Temp::new(2, 4)));
    assert!(Temp::new(160, 5).eq_value(Temp::from_whole(32)));
    assert!(!Temp::new(1, 2).eq_value(Temp::new(2, 3)));
    assert!(!Temp::from_whole(1).eq_value(Temp::from_whole(-1)));
}

#[test]
fn test_conversion_is_exact_fraction() {
    // 0.01 C is exactly 32.018 F: num/den come out unreduced but exact
    let f = celsius_to_fahrenheit(Temp::from_centi(1)).unwrap();
    assert_eq!(f.num, 9 + 160 * 100);
    assert_eq!(f.den, 500);
    assert!(f.eq_value(Temp::new(32018, 1000)));
}
