use antgrid::color::{parse_color, Color};

#[test]
fn parses_six_hex_digits_after_hash() {
    assert_eq!(parse_color("#FF0080"), Some(Color { r: 255, g: 0, b: 128 }));
    assert_eq!(parse_color("#000000"), Some(Color { r: 0, g: 0, b: 0 }));
    assert_eq!(parse_color("#ffffff"), Some(Color { r: 255, g: 255, b: 255 }));
    assert_eq!(parse_color("#1a2B3c"), Some(Color { r: 0x1a, g: 0x2b, b: 0x3c }));
}

#[test]
fn rejects_anything_but_hash_and_exactly_six_hex_digits() {
    assert_eq!(parse_color(""), None);
    assert_eq!(parse_color("FF0080"), None);
    assert_eq!(parse_color("#FF008"), None);
    assert_eq!(parse_color("#FF00800"), None);
    assert_eq!(parse_color("#GG0000"), None);
    assert_eq!(parse_color("#ff00 0"), None);
    assert_eq!(parse_color("0#FF080"), None);
}
