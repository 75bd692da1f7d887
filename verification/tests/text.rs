use firn::text::{to_decimal, to_padded, to_signed_decimal, uppercase_first_letter};

#[test]
fn decimal_digits() {
    assert_eq!(to_decimal(0), "0");
    assert_eq!(to_decimal(7), "7");
    assert_eq!(to_decimal(10), "10");
    assert_eq!(to_decimal(1234567890), "1234567890");
    assert_eq!(to_decimal(u64::MAX), "18446744073709551615");
}

#[test]
fn padded_digits() {
    assert_eq!(to_padded(7, 2), "07");
    assert_eq!(to_padded(0, 4), "0000");
    assert_eq!(to_padded(2018, 4), "2018");
    assert_eq!(to_padded(12345, 4), "12345");
    assert_eq!(to_padded(5, 0), "5");
}

#[test]
fn signed_digits() {
    assert_eq!(to_signed_decimal(0), "0");
    assert_eq!(to_signed_decimal(2911298), "2911298");
    assert_eq!(to_signed_decimal(-1), "-1");
    assert_eq!(to_signed_decimal(i64::MIN), "-9223372036854775808");
    assert_eq!(to_signed_decimal(i64::MAX), "9223372036854775807");
}

#[test]
fn first_letter_in_upper_case() {
    assert_eq!(uppercase_first_letter("apple"), "Apple");
    assert_eq!(uppercase_first_letter("CANON"), "Canon");
    assert_eq!(uppercase_first_letter("nIKON corp"), "Nikon corp");
    assert_eq!(uppercase_first_letter(""), "");
    assert_eq!(uppercase_first_letter("x"), "X");
    assert_eq!(uppercase_first_letter("ÄPFEL"), "Äpfel");
    // One character may become several.
    assert_eq!(uppercase_first_letter("ßa"), "SSa");
}
