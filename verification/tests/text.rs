use gamepad_host::bytes::{bit, i16_from_le, u16_from_le, u32_from_le};
use gamepad_host::text::{push_decimal, push_hex_byte, push_hex_word, push_signed};

#[test]
fn decimal_numbers() {
    for n in [0u64, 7, 10, 99, 100, 65535, u64::MAX] {
        let mut out = String::from("n=");
        push_decimal(&mut out, n);
        assert_eq!(out, format!("n={}", n));
    }
}

#[test]
fn signed_numbers() {
    for n in [0i64, 5, -1, -32768, 32767, i64::MIN + 1, i64::MAX] {
        let mut out = String::new();
        push_signed(&mut out, n);
        assert_eq!(out, format!("{}", n));
    }
}

#[test]
fn hexadecimal_numbers() {
    for n in [0u8, 9, 10, 0x5d, 0xff] {
        let mut out = String::new();
        push_hex_byte(&mut out, n);
        assert_eq!(out, format!("{:02x}", n));
    }
    for n in [0u16, 0x45e, 0x28e, 0xabcd, 0xffff] {
        let mut out = String::new();
        push_hex_word(&mut out, n);
        assert_eq!(out, format!("{:04x}", n));
    }
}

#[test]
fn bits_of_a_byte() {
    for n in 0..8u8 {
        assert!(bit(1 << n, n));
        assert!(!bit(!(1 << n), n));
    }
}

#[test]
fn little_endian_numbers() {
    assert_eq!(u16_from_le(0x34, 0x12), 0x1234);
    assert_eq!(i16_from_le(0xff, 0xff), -1);
    assert_eq!(i16_from_le(0x00, 0x80), i16::MIN);
    assert_eq!(i16_from_le(0xff, 0x7f), i16::MAX);
    assert_eq!(u32_from_le(0x78, 0x56, 0x34, 0x12), 0x12345678);
}
