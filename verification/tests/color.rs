use katazome::Rgb;

#[test]
fn parse_with_hash() {
    let rgb: Rgb = "#E26A3B".parse().unwrap();
    assert_eq!(rgb.r, 226);
    assert_eq!(rgb.g, 106);
    assert_eq!(rgb.b, 59);
}

#[test]
fn parse_without_hash() {
    let rgb: Rgb = "E26A3B".parse().unwrap();
    assert_eq!(rgb.r, 226);
    assert_eq!(rgb.g, 106);
    assert_eq!(rgb.b, 59);
}

#[test]
fn parse_black() {
    let rgb: Rgb = "#000000".parse().unwrap();
    assert_eq!(rgb, Rgb { r: 0, g: 0, b: 0 });
}

#[test]
fn parse_white() {
    let rgb: Rgb = "#FFFFFF".parse().unwrap();
    assert_eq!(
        rgb,
        Rgb {
            r: 255,
            g: 255,
            b: 255
        }
    );
}

#[test]
fn parse_lowercase() {
    let rgb: Rgb = "#aabbcc".parse().unwrap();
    assert_eq!(rgb.r, 170);
    assert_eq!(rgb.g, 187);
    assert_eq!(rgb.b, 204);
}

#[test]
fn parse_invalid_length_short() {
    assert!("#FFF".parse::<Rgb>().is_err());
}

#[test]
fn parse_invalid_length_long() {
    assert!("#FFFFFFFF".parse::<Rgb>().is_err());
}

#[test]
fn parse_invalid_chars() {
    assert!("#GGGGGG".parse::<Rgb>().is_err());
}

#[test]
fn parse_empty() {
    assert!("".parse::<Rgb>().is_err());
}

#[test]
fn parse_non_ascii() {
    assert!("#ＡＢＣＤＥＦ".parse::<Rgb>().is_err());
}

#[test]
fn to_array_string_format() {
    let rgb = Rgb {
        r: 226,
        g: 106,
        b: 59,
    };
    assert_eq!(rgb.to_array_string(), "[226, 106, 59]");
}

#[test]
fn display_uppercase() {
    let rgb = Rgb {
        r: 226,
        g: 106,
        b: 59,
    };
    assert_eq!(rgb.to_hex_string(), "#E26A3B");
}

#[test]
fn display_with_leading_zeros() {
    let rgb = Rgb { r: 1, g: 2, b: 3 };
    assert_eq!(rgb.to_hex_string(), "#010203");
}

#[test]
fn hex_text_parses_back_for_sample_colors() {
    for rgb in [
        Rgb { r: 0, g: 0, b: 0 },
        Rgb { r: 255, g: 255, b: 255 },
        Rgb { r: 10, g: 171, b: 239 },
        Rgb { r: 226, g: 106, b: 59 },
    ] {
        let text = rgb.to_hex_string();
        assert_eq!(text.len(), 7);
        assert!(text.starts_with('#'));
        assert_eq!(text.parse::<Rgb>().unwrap(), rgb);
    }
}

#[test]
fn parse_ignores_case_of_digits() {
    let upper: Rgb = "#ABCDEF".parse().unwrap();
    let lower: Rgb = "#abcdef".parse().unwrap();
    let mixed: Rgb = "aBcDeF".parse().unwrap();
    assert_eq!(upper, lower);
    assert_eq!(upper, mixed);
}

#[test]
fn parse_accepts_a_plus_sign_before_a_single_digit_like_from_str_radix() {
    // u8::from_str_radix("+F", 16) is 15.
    let rgb: Rgb = "#+F0A+1".parse().unwrap();
    assert_eq!(rgb, Rgb { r: 15, g: 10, b: 1 });
    assert!("#-F0A01".parse::<Rgb>().is_err());
}

#[test]
fn parse_error_holds_the_text_after_the_hash() {
    let err = "#12345".parse::<Rgb>().unwrap_err();
    assert!(matches!(&err, katazome::Error::InvalidHex(s) if s == "12345"));
    assert_eq!(err.message(), "invalid hex color: 12345");
    assert!("##123456".parse::<Rgb>().is_err());
}

#[test]
fn to_array_string_of_single_digits_and_zero() {
    assert_eq!(Rgb { r: 0, g: 7, b: 255 }.to_array_string(), "[0, 7, 255]");
}

#[test]
fn space_separated_channels() {
    let rgb: Rgb = "#E26A3B".parse().unwrap();
    assert_eq!(rgb.to_space_separated(), "226 106 59");
    assert_eq!(Rgb { r: 0, g: 5, b: 255 }.to_space_separated(), "0 5 255");
}

#[test]
fn parsed_hex_prints_in_upper_case() {
    for (text, printed) in [("e26a3b", "#E26A3B"), ("#aBcDeF", "#ABCDEF"), ("#0f0F09", "#0F0F09")] {
        let rgb: Rgb = text.parse().unwrap();
        assert_eq!(rgb.to_hex_string(), printed);
    }
}
