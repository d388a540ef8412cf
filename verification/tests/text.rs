use clicker::text::u16_to_string;

#[test]
fn renders_single_digits() {
    assert_eq!(u16_to_string(0), "0");
    assert_eq!(u16_to_string(7), "7");
    assert_eq!(u16_to_string(9), "9");
}

#[test]
fn renders_multiple_digits() {
    assert_eq!(u16_to_string(10), "10");
    assert_eq!(u16_to_string(42), "42");
    assert_eq!(u16_to_string(100), "100");
    assert_eq!(u16_to_string(9090), "9090");
}

#[test]
fn renders_extreme_values() {
    assert_eq!(u16_to_string(65535), "65535");
    assert_eq!(u16_to_string(10000), "10000");
}
