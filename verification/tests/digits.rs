use formatting::digits::{hex_digit_value, push_decimal, push_hex_pair, read_hex_pair};

#[test]
fn sixteen_digits() {
    let mut out = String::new();
    for b in [0x01u8, 0x23, 0x45, 0x67, 0x89, 0xAB, 0xCD, 0xEF] {
        push_hex_pair(&mut out, b);
    }
    assert_eq!(out, "0123456789ABCDEF");
}

#[test]
fn decimal_spelling() {
    for n in [0u128, 1, 9, 10, 11, 99, 100, 255, 1000, 12345678901234567890, u128::MAX] {
        let mut out = String::new();
        push_decimal(&mut out, n);
        assert_eq!(out, n.to_string());
    }
}

#[test]
fn decimal_is_appended() {
    let mut out = String::from("n = ");
    push_decimal(&mut out, 40);
    push_decimal(&mut out, 2);
    assert_eq!(out, "n = 402");
}

#[test]
fn hex_pair_spelling() {
    for b in 0..=255u8 {
        let mut out = String::from("0x");
        push_hex_pair(&mut out, b);
        assert_eq!(out, format!("0x{:02X}", b));
    }
}

#[test]
fn hex_digits_read_back() {
    for (d, upper) in "0123456789ABCDEF".chars().enumerate() {
        assert_eq!(hex_digit_value(upper), Some(d as u8));
        assert_eq!(hex_digit_value(upper.to_ascii_lowercase()), Some(d as u8));
    }
}

#[test]
fn only_hex_digits_have_a_value() {
    for code in 0..0x250u32 {
        if let Some(c) = char::from_u32(code) {
            assert_eq!(hex_digit_value(c), c.to_digit(16).map(|v| v as u8));
        }
    }
}

#[test]
fn hex_pairs_read_back() {
    for b in 0..=255u8 {
        let mut out = String::new();
        push_hex_pair(&mut out, b);
        let mut chars = out.chars();
        let high = chars.next().unwrap();
        let low = chars.next().unwrap();
        assert_eq!(chars.next(), None);
        assert_eq!(read_hex_pair(high, low), Some(b));
    }
    assert_eq!(read_hex_pair('G', '0'), None);
    assert_eq!(read_hex_pair('0', 'g'), None);
}
