use hexpix::color::Color;
use hexpix::error::GenError;

#[test]
fn decode_six_digit_red() {
    let c = Color::from_str("FF0000").unwrap();
    assert_eq!(c.r, 255);
    assert_eq!(c.g, 0);
    assert_eq!(c.b, 0);
    assert_eq!(c.a, 255);
    assert_eq!(c.hex, "FF0000");
}

#[test]
fn decode_six_digit_pairwise() {
    let c = Color::from_str("12AB34").unwrap();
    assert_eq!(c.r, 0x12);
    assert_eq!(c.g, 0xAB);
    assert_eq!(c.b, 0x34);
    assert_eq!(c.a, 255);
}

#[test]
fn decode_eight_digit() {
    let c = Color::from_str("00FF0080").unwrap();
    assert_eq!(c.r, 0);
    assert_eq!(c.g, 255);
    assert_eq!(c.b, 0);
    assert_eq!(c.a, 128);
    assert_eq!(c.hex, "00FF0080");
}

#[test]
fn decode_mixed_case() {
    let c = Color::from_str("fF00aA").unwrap();
    assert_eq!(c.r, 255);
    assert_eq!(c.g, 0);
    assert_eq!(c.b, 170);
    assert_eq!(c.a, 255);
    assert_eq!(c.hex, "fF00aA");
}

#[test]
fn decode_hash_insensitive() {
    let with_hash = Color::from_str("#FF0000").unwrap();
    let without = Color::from_str("FF0000").unwrap();
    assert_eq!(with_hash.r, without.r);
    assert_eq!(with_hash.g, without.g);
    assert_eq!(with_hash.b, without.b);
    assert_eq!(with_hash.a, without.a);
    assert_eq!(with_hash.hex, without.hex);
}

#[test]
fn decode_too_short() {
    assert_eq!(Color::from_str("FFF").unwrap_err(), GenError::InvalidFormat);
}

#[test]
fn decode_seven_digits() {
    assert_eq!(Color::from_str("FF00000").unwrap_err(), GenError::InvalidFormat);
}

#[test]
fn decode_nine_digits() {
    assert_eq!(Color::from_str("FF0000000").unwrap_err(), GenError::InvalidFormat);
}

#[test]
fn decode_empty() {
    assert_eq!(Color::from_str("").unwrap_err(), GenError::InvalidFormat);
    assert_eq!(Color::from_str("#").unwrap_err(), GenError::InvalidFormat);
}

#[test]
fn decode_double_hash_strips_only_one() {
    assert_eq!(Color::from_str("##FF0000").unwrap_err(), GenError::InvalidFormat);
}

#[test]
fn decode_non_hex_character() {
    assert_eq!(Color::from_str("GG0000").unwrap_err(), GenError::InvalidDigit);
}

#[test]
fn decode_non_hex_in_alpha() {
    assert_eq!(Color::from_str("00FF00ZZ").unwrap_err(), GenError::InvalidDigit);
}

#[test]
fn to_rgba_lists_channels() {
    let c = Color::from_str("01020304").unwrap();
    assert_eq!(c.to_rgba(), [1, 2, 3, 4]);
}

#[test]
fn default_output_appends_png() {
    let c = Color::from_str("FF0000").unwrap();
    assert_eq!(c.default_output(), "FF0000.png");
}

#[test]
fn default_output_uses_normalized_token() {
    let c = Color::from_str("#AABBCC").unwrap();
    assert_eq!(c.default_output(), "AABBCC.png");
}

#[test]
fn resolve_output_prefers_explicit_path() {
    let c = Color::from_str("FF0000").unwrap();
    assert_eq!(c.resolve_output(Some(String::from("out.png"))), "out.png");
    assert_eq!(c.resolve_output(None), "FF0000.png");
}

#[test]
fn error_messages_name_the_cause() {
    assert!(GenError::InvalidFormat.message().contains("6-digit"));
    assert!(GenError::InvalidFormat.message().contains("8-digit"));
    assert!(GenError::InvalidDigit.message().contains("hexadecimal"));
    assert!(GenError::RangeOrFormat.message().contains("at least 1"));
}
