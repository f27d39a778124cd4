//! The bitmaps of the status strip: digits in several styles, the labels and
//! the icons, and the drawing of a number.
//!
//! A bitmap holds one byte for each column, the lowest bit being the top
//! pixel.

use vstd::prelude::*;
use crate::canvas::{bitmap_drawn, draw_bitmap, fill_rect, rect_filled};
use crate::cell::{Rgb, black};

verus! {

/// The digit glyphs, four columns each: the digits of base 16 at 0 to 15, a
/// few letters and a mark for a number that does not fit from 16 on, the
/// seven-segment digits of base 16 from 23 on, and the straight digits from
/// 39 on.
pub const DIGIT_BITMAP: [[u8; 4]; 49] = [
    [0b0111110, 0b1000001, 0b1000001, 0b0111110],
    [0b0000000, 0b1000010, 0b1111111, 0b1000000],
    [0b1100010, 0b1010001, 0b1001001, 0b1000110],
    [0b0100010, 0b1000001, 0b1001001, 0b0110110],
    [0b0011000, 0b0010100, 0b0010010, 0b1111111],
    [0b0101111, 0b1001001, 0b1001001, 0b0110001],
    [0b0111110, 0b1001001, 0b1001001, 0b0110000],
    [0b0000001, 0b1100001, 0b0011001, 0b0000111],
    [0b0110110, 0b1001001, 0b1001001, 0b0110110],
    [0b0000110, 0b1001001, 0b1001001, 0b0111110],
    [0b1111110, 0b0001001, 0b0001001, 0b1111110],
    [0b1111111, 0b1001001, 0b1001001, 0b0110110],
    [0b0111110, 0b1000001, 0b1000001, 0b0100010],
    [0b1111111, 0b1000001, 0b1000001, 0b0111110],
    [0b1111111, 0b1001001, 0b1001001, 0b1000001],
    [0b1111111, 0b0001001, 0b0001001, 0b0000001],
    [0b0111110, 0b1000001, 0b1001001, 0b0111000],
    [0b1111111, 0b0001000, 0b0001000, 0b1111111],
    [0b0000000, 0b1000001, 0b1111111, 0b1000001],
    [0b0100001, 0b1000001, 0b0111111, 0b0000001],
    [0b1111111, 0b0001000, 0b0010100, 0b1100011],
    [0b1111111, 0b1000000, 0b1000000, 0b1000000],
    [0b0000000, 0b1011111, 0b0000000, 0b1011111],
    [0b0110110, 0b1000001, 0b1000001, 0b0110110],
    [0b0000000, 0b0000000, 0b0000000, 0b0110110],
    [0b0110000, 0b1001001, 0b1001001, 0b0000110],
    [0b0000000, 0b1001001, 0b1001001, 0b0110110],
    [0b0000110, 0b0001000, 0b0001000, 0b0110110],
    [0b0000110, 0b1001001, 0b1001001, 0b0110000],
    [0b0110110, 0b1001001, 0b1001001, 0b0110000],
    [0b0000000, 0b0000001, 0b0000001, 0b0110110],
    [0b0110110, 0b1001001, 0b1001001, 0b0110110],
    [0b0000110, 0b1001001, 0b1001001, 0b0110110],
    [0b1110110, 0b0001001, 0b0001001, 0b1110110],
    [0b0110110, 0b1001000, 0b1001000, 0b0110000],
    [0b0110110, 0b1000001, 0b1000001, 0b0000000],
    [0b0110000, 0b1001000, 0b1001000, 0b0110110],
    [0b0110110, 0b1001001, 0b1001001, 0b0000000],
    [0b0110110, 0b0001001, 0b0001001, 0b0000000],
    [0b0111110, 0b1000001, 0b1000001, 0b0111110],
    [0b0000000, 0b0000000, 0b0000000, 0b1111111],
    [0b1110001, 0b1001001, 0b1001001, 0b1000110],
    [0b1000001, 0b1001001, 0b1001001, 0b0110110],
    [0b0001111, 0b0001000, 0b0001000, 0b1111111],
    [0b1000111, 0b1001001, 0b1001001, 0b0110001],
    [0b0111110, 0b1001001, 0b1001001, 0b0110000],
    [0b0000001, 0b0000001, 0b0000001, 0b1111111],
    [0b0110110, 0b1001001, 0b1001001, 0b0110110],
    [0b0000110, 0b1001001, 0b1001001, 0b0111110],
];

/// The label "Generation".
pub const TEXT_BITMAP_GENERATION: [u8; 50] = [
    0b0111110, 0b1000001, 0b1000001, 0b1001001, 0b0111010, 0b0000000,
    0b0111000, 0b1010100, 0b1010100, 0b1010100, 0b0011000, 0b0000000,
    0b1111100, 0b0000100, 0b0000100, 0b1111000, 0b0000000, 0b0111000,
    0b1010100, 0b1010100, 0b1010100, 0b0011000, 0b0000000, 0b1111100,
    0b0001000, 0b0000100, 0b0000100, 0b0001000, 0b0000000, 0b0111000,
    0b1000100, 0b1000100, 0b0100100, 0b1111100, 0b0000000, 0b0000010,
    0b1111111, 0b0000010, 0b0000000, 0b1111010, 0b0000000, 0b0111000,
    0b1000100, 0b1000100, 0b0111000, 0b0000000, 0b1111100, 0b0000100,
    0b0000100, 0b1111000,
];

/// The label "Gen/sec", with its frame.
pub const TEXT_BITMAP_SPEED: [u8; 39] = [
    0b0111110, 0b1000001, 0b1000001, 0b1001001, 0b0111010, 0b0000000,
    0b0111000, 0b1010100, 0b1010100, 0b1010100, 0b0011000, 0b0000000,
    0b1111100, 0b0000100, 0b0000100, 0b1111000, 0b0000000, 0b1000000,
    0b0000000, 0b1100000, 0b0011100, 0b0000111, 0b1001000, 0b1010100,
    0b1010100, 0b0100100, 0b0000000, 0b0111000, 0b1010100, 0b1010100,
    0b1010100, 0b0011000, 0b0000000, 0b0111000, 0b1000100, 0b1000100,
    0b0101000, 0b0000000, 0b1000000,
];

/// The label "Population".
pub const TEXT_BITMAP_POPULATION: [u8; 42] = [
    0b1111111, 0b0001001, 0b0001001, 0b0000110, 0b0111000, 0b1000100,
    0b1000100, 0b0111000, 0b0000000, 0b11111100, 0b1000100, 0b1000100,
    0b0111000, 0b0000000, 0b0111100, 0b1000000, 0b1000000, 0b1111100,
    0b0000000, 0b1111111, 0b0000000, 0b0111000, 0b1000100, 0b1000100,
    0b0100100, 0b1111100, 0b0000000, 0b0000010, 0b1111111, 0b0000010,
    0b0000000, 0b1111010, 0b0000000, 0b0111000, 0b1000100, 0b1000100,
    0b0111000, 0b0000000, 0b1111100, 0b0000100, 0b0000100, 0b1111000,
];

/// The label "Macro".
pub const TEXT_BITMAP_MACRO: [u8; 27] = [
    0b1111111, 0b0000010, 0b0001100, 0b0000010, 0b1111111, 0b0000000,
    0b0111000, 0b1000100, 0b1000100, 0b0100100, 0b1111100, 0b0000000,
    0b0111000, 0b1000100, 0b1000100, 0b0101000, 0b0000000, 0b1111100,
    0b0001000, 0b0000100, 0b0000100, 0b0001000, 0b0000000, 0b0111000,
    0b1000100, 0b1000100, 0b0111000,
];

/// A slash.
pub const BITMAP_SLASH: [u8; 3] = [
    0b1100000, 0b0011100, 0b0000011,
];

/// A multiplication sign.
pub const BITMAP_TIMES: [u8; 5] = [
    0b0100010, 0b0010100, 0b0001000, 0b0010100, 0b0100010,
];

/// The icon shown while patterns are mirrored in x.
pub const BITMAP_ICON_FLIP_X: [u8; 7] = [
    0b0001000, 0b0010100, 0b0000000, 0b1111111, 0b0000000, 0b0010100,
    0b0001000,
];

/// The icon shown while patterns are mirrored in y.
pub const BITMAP_ICON_FLIP_Y: [u8; 7] = [
    0b0001000, 0b0001000, 0b0101010, 0b1001001, 0b0101010, 0b0001000,
    0b0001000,
];

/// The icon shown while the axes of patterns are swapped.
pub const BITMAP_ICON_FLIP_XY: [u8; 5] = [
    0b0110010, 0b0100100, 0b0001000, 0b0010010, 0b0100110,
];

/// Index of the glyph drawn for a number that its digits cannot show.
pub const OVERFLOW_GLYPH: u64 = 22;

/// The styles a number can be drawn in.
#[derive(Clone, Copy, Debug, PartialEq, Eq, Structural)]
pub enum DigitStyle {
    /// Base 10.
    Normal,
    /// Base 16.
    Hex,
    /// Base 10, seven-segment digits.
    SevenSegment,
    /// Base 16, seven-segment digits.
    SevenSegmentHex,
    /// Base 10, digits of straight strokes.
    Straight,
}

impl DigitStyle {
    /// Index of the glyph of the digit 0.
    #[verifier::allow_in_spec]
    pub fn first(self) -> usize
        returns
            (match self {
                DigitStyle::Normal => 0usize,
                DigitStyle::Hex => 0usize,
                DigitStyle::SevenSegment => 23usize,
                DigitStyle::SevenSegmentHex => 23usize,
                DigitStyle::Straight => 39usize,
            }),
    {
        match self {
            DigitStyle::Normal => 0,
            DigitStyle::Hex => 0,
            DigitStyle::SevenSegment => 23,
            DigitStyle::SevenSegmentHex => 23,
            DigitStyle::Straight => 39,
        }
    }

    /// The base that numbers are written in.
    #[verifier::allow_in_spec]
    pub fn base(self) -> u64
        returns
            (match self {
                DigitStyle::Normal => 10u64,
                DigitStyle::Hex => 16u64,
                DigitStyle::SevenSegment => 10u64,
                DigitStyle::SevenSegmentHex => 16u64,
                DigitStyle::Straight => 10u64,
            }),
    {
        match self {
            DigitStyle::Normal => 10,
            DigitStyle::Hex => 16,
            DigitStyle::SevenSegment => 10,
            DigitStyle::SevenSegmentHex => 16,
            DigitStyle::Straight => 10,
        }
    }
}

/// The glyph at `index` of the table.
pub open spec fn glyph(index: int) -> Seq<u8> {
    DIGIT_BITMAP@[index]@
}

/// The glyph at the left end of a number: the digit `value` if it is one,
/// else the glyph at `value` of the table, and the mark at 22 for all above.
pub open spec fn lead_glyph(style: DigitStyle, value: int) -> Seq<u8> {
    if value < style.base() {
        glyph(style.first() + value)
    } else if value > OVERFLOW_GLYPH {
        glyph(OVERFLOW_GLYPH as int)
    } else {
        glyph(value)
    }
}

/// The frame with the digits of `value` drawn from place `place` leftwards,
/// five pixels to a place, place 0 at `(x, y)`. Drawing stops where nothing
/// but zeros is left; what place 0 cannot show is drawn there as a mark.
pub open spec fn digits_drawn(
    pixels: Seq<Rgb>,
    width: int,
    style: DigitStyle,
    value: int,
    place: int,
    x: int,
    y: int,
    color: Rgb,
) -> Seq<Rgb>
    decreases place,
{
    if place <= 0 {
        bitmap_drawn(pixels, width, lead_glyph(style, value), x, y, color, 4)
    } else {
        let drawn = bitmap_drawn(
            pixels,
            width,
            glyph(style.first() + value % (style.base() as int)),
            x + place * 5,
            y,
            color,
            4,
        );
        if value / (style.base() as int) == 0 {
            drawn
        } else {
            digits_drawn(drawn, width, style, value / (style.base() as int), place - 1, x, y, color)
        }
    }
}

/// The frame with `value` drawn in `digits` places, the leftmost at
/// `(x, y)`, over a cleared ground if `clear` is set.
pub open spec fn int_drawn(
    pixels: Seq<Rgb>,
    width: int,
    style: DigitStyle,
    value: int,
    digits: int,
    x: int,
    y: int,
    color: Rgb,
    clear: bool,
) -> Seq<Rgb> {
    digits_drawn(
        if clear {
            rect_filled(pixels, width, x, y, digits * 5, 7, black())
        } else {
            pixels
        },
        width,
        style,
        value,
        digits - 1,
        x,
        y,
        color,
    )
}

/// Number of decimal digits of `n`; zero has one.
pub open spec fn decimal_digits(n: nat) -> int
    decreases n,
{
    if n < 10 {
        1
    } else {
        decimal_digits(n / 10) + 1
    }
}

proof fn lemma_decimal_digits_bound(n: nat, k: int)
    requires
        k >= 1,
        n < pow10(k),
    ensures
        1 <= decimal_digits(n) <= k,
    decreases n,
{
    if n >= 10 {
        assert(k >= 2) by {
            reveal_with_fuel(pow10, 3);
        }
        lemma_decimal_digits_bound(n / 10, k - 1);
    }
}

/// Number of decimal digits of `n`.
pub fn count_digits(n: u64) -> (digits: i32)
    ensures
        digits == decimal_digits(n as nat),
        1 <= digits <= 20,
{
    let mut rest: u64 = n;
    let mut digits: i32 = 1;
    proof {
        reveal_with_fuel(pow10, 22);
        lemma_decimal_digits_bound(n as nat, 20);
        lemma_decimal_digits_bound(rest as nat, 20);
    }
    while rest >= 10
        invariant
            1 <= digits,
            1 <= decimal_digits(rest as nat),
            digits + decimal_digits(rest as nat) == decimal_digits(n as nat) + 1,
            decimal_digits(n as nat) <= 20,
        decreases rest,
    {
        proof {
            reveal_with_fuel(pow10, 22);
            lemma_decimal_digits_bound((rest / 10) as nat, 20);
        }
        rest = rest / 10;
        digits = digits + 1;
    }
    digits
}

/// Ten to the power `e`.
pub open spec fn pow10(e: int) -> int
    decreases e,
{
    if e <= 0 {
        1
    } else {
        10 * pow10(e - 1)
    }
}

/// Draws `value` in `digits` places of five pixels, the leftmost at `(x, y)`.
pub fn draw_int(
    pixels: &mut Vec<Rgb>,
    width: i32,
    style: DigitStyle,
    value: u64,
    digits: i32,
    x: i32,
    y: i32,
    color: Rgb,
    clear: bool,
)
    requires
        width > 0,
        i32::MIN <= 5 * digits <= i32::MAX,
        x + 4 <= i32::MAX,
        x + 5 * digits + 4 <= i32::MAX,
        y + 8 <= i32::MAX,
    ensures
        final(pixels)@ == int_drawn(
            old(pixels)@,
            width as int,
            style,
            value as int,
            digits as int,
            x as int,
            y as int,
            color,
            clear,
        ),
        final(pixels)@.len() == old(pixels)@.len(),
{
    let first: usize = style.first();
    let base: u64 = style.base();
    if clear {
        fill_rect(pixels, width, x, y, digits * 5, 7, black());
    }
    let ghost ground = pixels@;
    let mut rest: u64 = value;
    let mut place: i32 = digits - 1;
    while place >= 1
        invariant
            pixels@.len() == old(pixels)@.len(),
            width > 0,
            i32::MIN <= 5 * digits <= i32::MAX,
            x + 4 <= i32::MAX,
            x + 5 * digits + 4 <= i32::MAX,
            y + 8 <= i32::MAX,
            first == style.first(),
            base == style.base(),
            place < digits,
            ground == (if clear {
                rect_filled(old(pixels)@, width as int, x as int, y as int, digits * 5, 7, black())
            } else {
                old(pixels)@
            }),
            digits_drawn(
                pixels@,
                width as int,
                style,
                rest as int,
                place as int,
                x as int,
                y as int,
                color,
            ) == digits_drawn(
                ground,
                width as int,
                style,
                value as int,
                digits - 1,
                x as int,
                y as int,
                color,
            ),
        decreases place,
    {
        let digit: usize = (rest % base) as usize;
        let shape: [u8; 4] = DIGIT_BITMAP[first + digit];
        let ghost before = pixels@;
        let ghost more = rest as int;
        assert(shape@ == glyph(first + digit));
        draw_bitmap(pixels, width, &shape, x + place * 5, y, color);
        rest = rest / base;
        assert(digits_drawn(
            before,
            width as int,
            style,
            more,
            place as int,
            x as int,
            y as int,
            color,
        ) == (if rest == 0 {
            pixels@
        } else {
            digits_drawn(
                pixels@,
                width as int,
                style,
                rest as int,
                place - 1,
                x as int,
                y as int,
                color,
            )
        }));
        if rest == 0 {
            return ;
        }
        place = place - 1;
    }
    if rest < base {
        let shape: [u8; 4] = DIGIT_BITMAP[first + rest as usize];
        assert(shape@ == glyph(first + rest));
        draw_bitmap(pixels, width, &shape, x, y, color);
        return ;
    }
    let ghost unclipped = rest;
    if rest > OVERFLOW_GLYPH {
        rest = OVERFLOW_GLYPH;
    }
    let shape: [u8; 4] = DIGIT_BITMAP[rest as usize];
    assert(shape@ == lead_glyph(style, unclipped as int));
    draw_bitmap(pixels, width, &shape, x, y, color);
}

} // verus!
