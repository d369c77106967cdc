use vanity_address::hex::{hex_char, to_hex};

#[test]
fn hex_char_gives_the_sixteen_digits() {
    let mut digits = String::new();
    for value in 0..16u8 {
        digits.push(hex_char(value));
    }
    assert_eq!(digits, "0123456789abcdef");
}

#[test]
fn to_hex_of_nothing_is_empty() {
    assert_eq!(to_hex(&[]), "");
}

#[test]
fn to_hex_writes_two_digits_a_byte() {
    assert_eq!(to_hex(&[0x00]), "00");
    assert_eq!(to_hex(&[0x0f]), "0f");
    assert_eq!(to_hex(&[0xa0]), "a0");
    assert_eq!(to_hex(&[0xff]), "ff");
}

#[test]
fn to_hex_keeps_the_order_of_the_bytes() {
    assert_eq!(to_hex(&[0x01, 0x23, 0x45, 0x67, 0x89, 0xab, 0xcd, 0xef]), "0123456789abcdef");
    assert_eq!(to_hex(&[0xde, 0xad, 0xbe, 0xef]), "deadbeef");
}

#[test]
fn to_hex_of_every_byte_value() {
    for value in 0..=255u8 {
        assert_eq!(to_hex(&[value]), format!("{:02x}", value));
    }
}
