//! What a session is started with: the size of its window and the style of
//! its numbers, as they are written on a command line.

use vstd::prelude::*;
use crate::codec::{decimal_value, digits_end, read_digits};
use crate::glyphs::DigitStyle;
use crate::overlay::MAX_PIXELS;
use crate::status::INFO_HEIGHT;

verus! {

/// The name `normal`.
pub const NAME_NORMAL: [u8; 6] = [110, 111, 114, 109, 97, 108];

/// The name `hex`.
pub const NAME_HEX: [u8; 3] = [104, 101, 120];

/// The name `7-segment`.
pub const NAME_SEGMENT: [u8; 9] = [55, 45, 115, 101, 103, 109, 101, 110, 116];

/// The name `7-segment-hex`.
pub const NAME_SEGMENT_HEX: [u8; 13] = [55, 45, 115, 101, 103, 109, 101, 110, 116, 45, 104, 101, 120];

/// The name `straight`.
pub const NAME_STRAIGHT: [u8; 8] = [115, 116, 114, 97, 105, 103, 104, 116];

/// The style that `name` names, if it names one.
pub open spec fn style_named(name: Seq<u8>) -> Option<DigitStyle> {
    if name == NAME_NORMAL@ {
        Some(DigitStyle::Normal)
    } else if name == NAME_HEX@ {
        Some(DigitStyle::Hex)
    } else if name == NAME_SEGMENT@ {
        Some(DigitStyle::SevenSegment)
    } else if name == NAME_SEGMENT_HEX@ {
        Some(DigitStyle::SevenSegmentHex)
    } else if name == NAME_STRAIGHT@ {
        Some(DigitStyle::Straight)
    } else {
        None
    }
}

/// Index of the first digit of the number that starts at `from`: behind a
/// plus sign, if there is one.
pub open spec fn number_start(text: Seq<u8>, from: int) -> int {
    if 0 <= from < text.len() && text[from] == 43 {
        from + 1
    } else {
        from
    }
}

/// The size that `text` gives: two numbers with an `x` between them, each
/// a run of decimal digits, with or without a plus sign before it, that
/// stands for no more than an `i32` holds.
pub open spec fn size_spec(text: Seq<u8>) -> Option<(int, int)> {
    let a = number_start(text, 0);
    let k = digits_end(text, a);
    let b = number_start(text, k + 1);
    let e = digits_end(text, b);
    let width = decimal_value(text.subrange(a, k));
    let height = decimal_value(text.subrange(b, e));
    if k == a || k >= text.len() || text[k] != 120 || e == b || e != text.len() || width
        > i32::MAX || height > i32::MAX {
        None
    } else {
        Some((width, height))
    }
}

/// Whether a session can be started in a window of `width` by `height`
/// pixels: there is a column, a row above the status strip, and the frame is
/// not too large.
pub open spec fn frame_ok(width: int, height: int) -> bool {
    0 < width && INFO_HEIGHT < height && width * height <= MAX_PIXELS
}

/// Whether two texts are the same.
fn same(a: &[u8], b: &[u8]) -> (r: bool)
    ensures
        r == (a@ == b@),
{
    if a.len() != b.len() {
        return false;
    }
    let mut i: usize = 0;
    while i < a.len()
        invariant
            a@.len() == b@.len(),
            i <= a@.len(),
            forall|k: int| 0 <= k < i ==> a@[k] == b@[k],
        decreases a@.len() - i,
    {
        if a[i] != b[i] {
            return false;
        }
        i += 1;
    }
    assert(a@ =~= b@);
    true
}

/// The style that `name` names: one of `normal`, `hex`, `7-segment`,
/// `7-segment-hex` and `straight`.
pub fn style_from_name(name: &[u8]) -> (style: Option<DigitStyle>)
    ensures
        style == style_named(name@),
{
    if same(name, &NAME_NORMAL) {
        Some(DigitStyle::Normal)
    } else if same(name, &NAME_HEX) {
        Some(DigitStyle::Hex)
    } else if same(name, &NAME_SEGMENT) {
        Some(DigitStyle::SevenSegment)
    } else if same(name, &NAME_SEGMENT_HEX) {
        Some(DigitStyle::SevenSegmentHex)
    } else if same(name, &NAME_STRAIGHT) {
        Some(DigitStyle::Straight)
    } else {
        None
    }
}

/// Reads a size written as `<width>x<height>`.
pub fn parse_size(text: &[u8]) -> (size: Option<(i32, i32)>)
    ensures
        match size {
            Some(s) => size_spec(text@) == Some((s.0 as int, s.1 as int)),
            None => size_spec(text@) is None,
        },
{
    let a: usize = if text.len() > 0 && text[0] == 43 {
        1
    } else {
        0
    };
    let (k, width) = read_digits(text, a);
    if k == a || k >= text.len() || text[k] != 120 {
        return None;
    }
    let b: usize = if k + 1 < text.len() && text[k + 1] == 43 {
        k + 2
    } else {
        k + 1
    };
    let (e, height) = read_digits(text, b);
    if e == b || e != text.len() {
        return None;
    }
    match (width, height) {
        (Some(w), Some(h)) => Some((w, h)),
        _ => None,
    }
}

/// Whether a session can be started in a window of `width` by `height`
/// pixels.
pub fn frame_fits(width: i32, height: i32) -> (r: bool)
    ensures
        r == frame_ok(width as int, height as int),
{
    if width <= 0 || height <= INFO_HEIGHT {
        return false;
    }
    assert(0 <= width * height <= 0x7fff_ffff * 0x7fff_ffff) by (nonlinear_arith)
        requires
            0 < width <= 0x7fff_ffff,
            0 < height <= 0x7fff_ffff,
    ;
    width as i64 * height as i64 <= MAX_PIXELS as i64
}

} // verus!
