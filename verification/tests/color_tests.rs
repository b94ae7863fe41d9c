use liquid_glass::color::{color_from_hex, RgbaColor};

#[test]
fn parses_opaque_red() {
    assert_eq!(
        color_from_hex("#FF0000"),
        Some(RgbaColor { r: 255, g: 0, b: 0, a: 255 })
    );
}

#[test]
fn parses_red_with_alpha() {
    assert_eq!(
        color_from_hex("#FF000080"),
        Some(RgbaColor { r: 255, g: 0, b: 0, a: 128 })
    );
}

#[test]
fn parses_translucent_black() {
    assert_eq!(
        color_from_hex("#00000040"),
        Some(RgbaColor { r: 0, g: 0, b: 0, a: 64 })
    );
}

#[test]
fn rejects_non_color_text() {
    assert_eq!(color_from_hex("not-a-color"), None);
}

#[test]
fn rejects_wrong_lengths() {
    for s in ["", "#", "#FFF", "#FFFFF", "#FFFFFFF", "#FFFFFFFFF"] {
        assert_eq!(color_from_hex(s), None, "{s:?} should not parse");
    }
}

#[test]
fn rejects_non_hex_digits() {
    assert_eq!(color_from_hex("#GGGGGG"), None);
    assert_eq!(color_from_hex("#12345G"), None);
}

#[test]
fn trims_surrounding_whitespace() {
    assert_eq!(
        color_from_hex("  #00FF00\t\n"),
        Some(RgbaColor { r: 0, g: 255, b: 0, a: 255 })
    );
}

#[test]
fn works_without_hash_mark() {
    assert_eq!(
        color_from_hex("336699"),
        Some(RgbaColor { r: 0x33, g: 0x66, b: 0x99, a: 255 })
    );
}

#[test]
fn strips_every_leading_hash_mark() {
    assert_eq!(
        color_from_hex("##123456"),
        Some(RgbaColor { r: 0x12, g: 0x34, b: 0x56, a: 255 })
    );
}

#[test]
fn accepts_lower_and_mixed_case() {
    assert_eq!(
        color_from_hex("#aabbcc"),
        Some(RgbaColor { r: 170, g: 187, b: 204, a: 255 })
    );
    assert_eq!(
        color_from_hex("#AbCdEf"),
        Some(RgbaColor { r: 0xAB, g: 0xCD, b: 0xEF, a: 255 })
    );
}

#[test]
fn leading_plus_counts_toward_the_length() {
    // a numeric parse takes one leading plus, which leaves five digits here
    assert_eq!(
        color_from_hex("+ABCDE"),
        Some(RgbaColor { r: 0x0A, g: 0xBC, b: 0xDE, a: 255 })
    );
    // with the plus the string is seven characters, so it does not parse
    assert_eq!(color_from_hex("+ABCDEF"), None);
}

#[test]
fn rejects_inner_plus() {
    assert_eq!(color_from_hex("#FF+000"), None);
    assert_eq!(color_from_hex("++12345"), None);
}

#[test]
fn parses_full_eight_digit_value() {
    assert_eq!(
        color_from_hex("#12345678"),
        Some(RgbaColor { r: 0x12, g: 0x34, b: 0x56, a: 0x78 })
    );
}
