use thread_palette::color::Color;
use thread_palette::hex_color::decode_hex_color;

fn rgba(r: u8, g: u8, b: u8, a: u8) -> Color {
    Color { r, g, b, a }
}

#[test]
fn six_digits_give_opaque_color() {
    assert_eq!(decode_hex_color("#FFFFFF"), Some(rgba(255, 255, 255, 255)));
    assert_eq!(decode_hex_color("#000000"), Some(rgba(0, 0, 0, 255)));
    assert_eq!(decode_hex_color("#1A2b3C"), Some(rgba(26, 43, 60, 255)));
}

#[test]
fn eight_digits_give_explicit_alpha() {
    assert_eq!(decode_hex_color("#00000080"), Some(rgba(0, 0, 0, 128)));
    assert_eq!(decode_hex_color("#FF000000"), Some(rgba(255, 0, 0, 0)));
}

#[test]
fn wrong_length_is_rejected() {
    assert_eq!(decode_hex_color("#ABC"), None);
    assert_eq!(decode_hex_color("#FFFFF"), None);
    assert_eq!(decode_hex_color("#FFFFFFF"), None);
    assert_eq!(decode_hex_color(""), None);
    assert_eq!(decode_hex_color("#"), None);
}

#[test]
fn missing_hash_is_rejected() {
    assert_eq!(decode_hex_color("0FFFFFF"), None);
    assert_eq!(decode_hex_color("FFFFFFFF0"), None);
}

#[test]
fn non_hex_digit_is_rejected() {
    assert_eq!(decode_hex_color("#GGGGGG"), None);
    assert_eq!(decode_hex_color("#12345G"), None);
    assert_eq!(decode_hex_color("#0000004\u{30a2}"), None);
}
