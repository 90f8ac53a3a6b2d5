use tempconv::parse::parse_decimal;
use tempconv::round::{centi_parts, to_centi};
use tempconv::{celsius_to_fahrenheit, Temp};

#[test]
fn test_parse_whole_numbers() {
    let t = parse_decimal(b"0").unwrap();
    assert_eq!((t.num, t.den), (0, 1));
    let t = parse_decimal(b"100").unwrap();
    assert_eq!((t.num, t.den), (100, 1));
    let t = parse_decimal(b"-300").unwrap();
    assert_eq!((t.num, t.den), (-300, 1));
    let t = parse_decimal(b"+7").unwrap();
    assert_eq!((t.num, t.den), (7, 1));
}

#[test]
fn test_parse_fractions() {
    let t = parse_decimal(b"-273.15").unwrap();
    assert_eq!((t.num, t.den), (-27315, 100));
    let t = parse_decimal(b"32.50").unwrap();
    assert_eq!((t.num, t.den), (3250, 100));
    let t = parse_decimal(b"0.005").unwrap();
    assert_eq!((t.num, t.den), (5, 1000));
    let t = parse_decimal(b"007").unwrap();
    assert_eq!((t.num, t.den), (7, 1));
}

#[test]
fn test_parse_rejects_malformed() {
    assert!(parse_decimal(b"").is_none());
    assert!(parse_decimal(b"-").is_none());
    assert!(parse_decimal(b"+").is_none());
    assert!(parse_decimal(b".").is_none());
    assert!(parse_decimal(b"1.").is_none());
    assert!(parse_decimal(b".5").is_none());
    assert!(parse_decimal(b"1.2.3").is_none());
    assert!(parse_decimal(b"12a").is_none());
    assert!(parse_decimal(b"1.2x").is_none());
    assert!(parse_decimal(b"--1").is_none());
    assert!(parse_decimal(b" 1").is_none());
    assert!(parse_decimal(b"1 ").is_none());
}

#[test]
fn test_parse_digit_budget() {
    // fifteen digits in all are accepted, sixteen are not
    let t = parse_decimal(b"123456789012345").unwrap();
    assert_eq!((t.num, t.den), (123456789012345, 1));
    assert!(parse_decimal(b"1234567890123456").is_none());
    let t = parse_decimal(b"1.23456789012345").unwrap();
    assert_eq!((t.num, t.den), (123456789012345, 100000000000000));
    assert!(parse_decimal(b"1.234567890123456").is_none());
    assert!(parse_decimal(b"0000000000000000").is_none());
}

#[test]
fn test_parse_then_convert() {
    let c = parse_decimal(b"-273.15").unwrap();
    let f = celsius_to_fahrenheit(c).unwrap();
    assert!(f.eq_value(Temp::from_centi(-45967)));
}

#[test]
fn test_to_centi_rounds_to_nearest() {
    // 1/3 of a degree is 33.33.. hundredths, rounding down
    assert_eq!(to_centi(Temp::new(1, 3)), 33);
    assert_eq!(to_centi(Temp::new(-1, 3)), -33);
    // 2/3 of a degree is 66.66.. hundredths, rounding up
    assert_eq!(to_centi(Temp::new(2, 3)), 67);
    assert_eq!(to_centi(Temp::new(-2, 3)), -67);
    // exact values stay exact
    assert_eq!(to_centi(Temp::from_centi(-27315)), -27315);
    assert_eq!(to_centi(Temp::from_whole(32)), 3200);
}

#[test]
fn test_to_centi_ties_away_from_zero() {
    // 0.005 degrees is half a hundredth: away from zero on either side
    assert_eq!(to_centi(Temp::new(5, 1000)), 1);
    assert_eq!(to_centi(Temp::new(-5, 1000)), -1);
}

#[test]
fn test_to_centi_of_conversion_result() {
    // the display value of -273.15 C in Fahrenheit is exactly -459.67
    let f = celsius_to_fahrenheit(Temp::from_centi(-27315)).unwrap();
    assert_eq!(to_centi(f), -45967);
}

#[test]
fn test_centi_parts_for_display() {
    assert_eq!(centi_parts(-45967), (true, 459, 67));
    assert_eq!(centi_parts(3250), (false, 32, 50));
    assert_eq!(centi_parts(5), (false, 0, 5));
    assert_eq!(centi_parts(0), (false, 0, 0));
    assert_eq!(centi_parts(-1), (true, 0, 1));
}
