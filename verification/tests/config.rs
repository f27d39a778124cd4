use game_of_life::config::{frame_fits, parse_size, style_from_name};
use game_of_life::glyphs::DigitStyle;

#[test]
fn a_size_is_two_numbers_with_an_x_between() {
    assert_eq!(parse_size(b"256x256"), Some((256, 256)));
    assert_eq!(parse_size(b"1x2"), Some((1, 2)));
    assert_eq!(parse_size(b"0x0"), Some((0, 0)));
    assert_eq!(parse_size(b"007x010"), Some((7, 10)));
    assert_eq!(parse_size(b"2147483647x2147483647"), Some((2147483647, 2147483647)));
}

#[test]
fn a_number_may_have_a_plus_sign() {
    assert_eq!(parse_size(b"+12x+3"), Some((12, 3)));
    assert_eq!(parse_size(b"12x+3"), Some((12, 3)));
    assert_eq!(parse_size(b"+12x3"), Some((12, 3)));
}

#[test]
fn what_is_not_a_size_is_refused() {
    for text in [
        &b""[..],
        b"x",
        b"12",
        b"12x",
        b"x12",
        b"12x3x4",
        b"12X3",
        b"12 x 3",
        b" 12x3",
        b"12x3 ",
        b"-1x5",
        b"5x-1",
        b"+x3",
        b"3x+",
        b"++3x3",
        b"1.5x3",
        b"2147483648x1",
        b"1x2147483648",
        b"99999999999999999999x1",
    ] {
        assert_eq!(parse_size(text), None);
    }
}

#[test]
fn the_styles_have_names() {
    assert_eq!(style_from_name(b"normal"), Some(DigitStyle::Normal));
    assert_eq!(style_from_name(b"hex"), Some(DigitStyle::Hex));
    assert_eq!(style_from_name(b"7-segment"), Some(DigitStyle::SevenSegment));
    assert_eq!(style_from_name(b"7-segment-hex"), Some(DigitStyle::SevenSegmentHex));
    assert_eq!(style_from_name(b"straight"), Some(DigitStyle::Straight));
}

#[test]
fn other_names_name_no_style() {
    for name in [&b""[..], b"Normal", b"normal ", b"hexa", b"he", b"7-segment-", b"7segment", b"straigh"] {
        assert_eq!(style_from_name(name), None);
    }
}

#[test]
fn a_frame_needs_a_cell_and_must_not_be_too_large() {
    assert!(frame_fits(1, 23));
    assert!(frame_fits(256, 278));
    assert!(frame_fits(1, 0x4000_0000));
    assert!(frame_fits(0x8000, 0x8000));
    assert!(!frame_fits(0, 23));
    assert!(!frame_fits(-5, 100));
    assert!(!frame_fits(1, 22));
    assert!(!frame_fits(100, -3));
    assert!(!frame_fits(1, 0x4000_0001));
    assert!(!frame_fits(0x8000, 0x8001));
    assert!(!frame_fits(i32::MAX, i32::MAX));
}
