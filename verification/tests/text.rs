use round_robin::text::to_decimal;

#[test]
fn to_decimal_of_single_digits() {
    assert_eq!(to_decimal(0), "0");
    assert_eq!(to_decimal(1), "1");
    assert_eq!(to_decimal(5), "5");
    assert_eq!(to_decimal(9), "9");
}

#[test]
fn to_decimal_of_several_digits() {
    assert_eq!(to_decimal(10), "10");
    assert_eq!(to_decimal(42), "42");
    assert_eq!(to_decimal(100), "100");
    assert_eq!(to_decimal(909), "909");
    assert_eq!(to_decimal(1234567890), "1234567890");
}

#[test]
fn to_decimal_of_the_largest_number() {
    assert_eq!(to_decimal(usize::MAX), format!("{}", usize::MAX));
}

#[test]
fn to_decimal_agrees_with_the_standard_rendering() {
    for n in 0..2000usize {
        assert_eq!(to_decimal(n), format!("{}", n));
    }
}
