//! Drawing into the frame: a row-major buffer of pixels, `width` to a row.
//! A write outside the buffer is dropped.

use vstd::prelude::*;
use crate::cell::Rgb;

verus! {

/// The frame with the pixel in column `x` of row `y` set to `color`:
/// the pixel at index `y * width + x`, if the buffer has one.
pub open spec fn put(pixels: Seq<Rgb>, width: int, x: int, y: int, color: Rgb) -> Seq<Rgb> {
    if x >= 0 && y >= 0 && 0 <= y * width + x < pixels.len() {
        pixels.update(y * width + x, color)
    } else {
        pixels
    }
}

/// The frame with `w` pixels of row `y` set to `color`, from column `x` on.
pub open spec fn row_filled(
    pixels: Seq<Rgb>,
    width: int,
    x: int,
    y: int,
    w: int,
    color: Rgb,
) -> Seq<Rgb>
    decreases w,
{
    if w <= 0 {
        pixels
    } else {
        put(row_filled(pixels, width, x, y, w - 1, color), width, x + w - 1, y, color)
    }
}

/// The frame with a rectangle set to `color`: `h` rows from row `y` on, `w`
/// pixels in each from column `x` on.
pub open spec fn rect_filled(
    pixels: Seq<Rgb>,
    width: int,
    x: int,
    y: int,
    w: int,
    h: int,
    color: Rgb,
) -> Seq<Rgb>
    decreases h,
{
    if h <= 0 {
        pixels
    } else {
        row_filled(rect_filled(pixels, width, x, y, w, h - 1, color), width, x, y + h - 1, w, color)
    }
}

/// Weight of bit `b` of a byte, bit 0 being the least significant.
pub open spec fn bit_weight(b: int) -> int {
    if b <= 0 {
        1
    } else if b == 1 {
        2
    } else if b == 2 {
        4
    } else if b == 3 {
        8
    } else if b == 4 {
        16
    } else if b == 5 {
        32
    } else if b == 6 {
        64
    } else {
        128
    }
}

/// Whether bit `b` of `line` is set.
pub open spec fn has_bit(line: u8, b: int) -> bool {
    (line as int / bit_weight(b)) % 2 == 1
}

/// The frame with the lowest `b` bits of one column of a bitmap drawn: bit
/// `k` of `line`, where set, colours the pixel `k` rows below `(x, y)`.
pub open spec fn column_drawn(
    pixels: Seq<Rgb>,
    width: int,
    line: u8,
    x: int,
    y: int,
    color: Rgb,
    b: int,
) -> Seq<Rgb>
    decreases b,
{
    if b <= 0 {
        pixels
    } else {
        let before = column_drawn(pixels, width, line, x, y, color, b - 1);
        if has_bit(line, b - 1) {
            put(before, width, x, y + b - 1, color)
        } else {
            before
        }
    }
}

/// The frame with the first `n` columns of a bitmap drawn, the first of
/// them at `(x, y)`, each one pixel to the right of the one before.
pub open spec fn bitmap_drawn(
    pixels: Seq<Rgb>,
    width: int,
    lines: Seq<u8>,
    x: int,
    y: int,
    color: Rgb,
    n: int,
) -> Seq<Rgb>
    decreases n,
{
    if n <= 0 {
        pixels
    } else {
        column_drawn(
            bitmap_drawn(pixels, width, lines, x, y, color, n - 1),
            width,
            lines[n - 1],
            x + n - 1,
            y,
            color,
            8,
        )
    }
}

/// Whether the pixel at index `p` of a frame `width` wide lies in the
/// rectangle of `w` by `h` pixels whose top left pixel is `(x, y)`.
pub open spec fn in_frame_rect(width: int, x: int, y: int, w: int, h: int, p: int) -> bool {
    x <= p % width < x + w && y <= p / width < y + h
}

/// What filling a row means where the row lies within the frame: the
/// pixels from column `x` to before column `x + w` of row `y` have the
/// colour, all others are as they were.
pub proof fn lemma_row_filled(
    pixels: Seq<Rgb>,
    width: int,
    x: int,
    y: int,
    w: int,
    color: Rgb,
    p: int,
)
    requires
        0 <= x,
        0 <= w,
        x + w <= width,
        0 <= y,
        (y + 1) * width <= pixels.len(),
        0 <= p < pixels.len(),
    ensures
        row_filled(pixels, width, x, y, w, color).len() == pixels.len(),
        row_filled(pixels, width, x, y, w, color)[p] == (if y * width + x <= p < y * width + x + w {
            color
        } else {
            pixels[p]
        }),
    decreases w,
{
    if w > 0 {
        lemma_row_filled(pixels, width, x, y, w - 1, color, p);
        assert((y + 1) * width == y * width + width) by (nonlinear_arith);
        assert(0 <= y * width) by (nonlinear_arith)
            requires
                0 <= y,
                0 < width,
        ;
    }
}

/// What filling a rectangle means where the rectangle lies within the
/// frame: its pixels have the colour, all others are as they were.
pub proof fn lemma_rect_filled(
    pixels: Seq<Rgb>,
    width: int,
    x: int,
    y: int,
    w: int,
    h: int,
    color: Rgb,
    p: int,
)
    requires
        0 <= x,
        0 <= w,
        x + w <= width,
        0 <= y,
        0 <= h,
        (y + h) * width <= pixels.len(),
        0 <= p < pixels.len(),
    ensures
        rect_filled(pixels, width, x, y, w, h, color).len() == pixels.len(),
        rect_filled(pixels, width, x, y, w, h, color)[p] == (if in_frame_rect(
            width,
            x,
            y,
            w,
            h,
            p,
        ) {
            color
        } else {
            pixels[p]
        }),
    decreases h,
{
    if h > 0 {
        let before = rect_filled(pixels, width, x, y, w, h - 1, color);
        assert((y + h - 1) * width <= (y + h) * width && (y + h - 1 + 1) * width == (y + h)
            * width) by (nonlinear_arith)
            requires
                0 <= width,
        ;
        lemma_rect_filled(pixels, width, x, y, w, h - 1, color, p);
        lemma_row_filled(before, width, x, y + h - 1, w, color, p);
        if width > 0 {
            let row = y + h - 1;
            if row * width + x <= p < row * width + x + w {
                vstd::arithmetic::div_mod::lemma_fundamental_div_mod_converse(
                    p,
                    width,
                    row,
                    p - row * width,
                );
            }
            if p / width == row {
                vstd::arithmetic::div_mod::lemma_fundamental_div_mod(p, width);
                assert(width * row == row * width) by (nonlinear_arith);
            }
        }
    }
}

/// What drawing a column of a bitmap means where the column lies within
/// the frame: the pixel `k` rows below `(x, y)` has the colour if bit `k`
/// of the byte is set, all others are as they were.
pub proof fn lemma_column_drawn(
    pixels: Seq<Rgb>,
    width: int,
    line: u8,
    x: int,
    y: int,
    color: Rgb,
    b: int,
    p: int,
)
    requires
        0 <= x < width,
        0 <= y,
        0 <= b,
        (y + b) * width <= pixels.len(),
        0 <= p < pixels.len(),
    ensures
        column_drawn(pixels, width, line, x, y, color, b).len() == pixels.len(),
        column_drawn(pixels, width, line, x, y, color, b)[p] == (if p % width == x && y <= p
            / width < y + b && has_bit(line, p / width - y) {
            color
        } else {
            pixels[p]
        }),
    decreases b,
{
    if b > 0 {
        let row = y + b - 1;
        assert(row * width <= (y + b) * width && (row + 1) * width == (y + b) * width && 0 <= row
            * width) by (nonlinear_arith)
            requires
                0 <= width,
                row == y + b - 1,
                0 <= row,
        ;
        lemma_column_drawn(pixels, width, line, x, y, color, b - 1, p);
        vstd::arithmetic::div_mod::lemma_fundamental_div_mod(p, width);
        assert(width * (p / width) == (p / width) * width) by (nonlinear_arith);
        if p == row * width + x {
            vstd::arithmetic::div_mod::lemma_fundamental_div_mod_converse(p, width, row, x);
        }
    }
}

/// What drawing a bitmap means where the bitmap lies within the frame: the
/// pixel `i` columns right of and `k` rows below `(x, y)` has the colour if
/// bit `k` of byte `i` is set, all others are as they were.
pub proof fn lemma_bitmap_drawn(
    pixels: Seq<Rgb>,
    width: int,
    lines: Seq<u8>,
    x: int,
    y: int,
    color: Rgb,
    n: int,
    p: int,
)
    requires
        0 <= x,
        0 <= n <= lines.len(),
        x + n <= width,
        0 <= y,
        (y + 8) * width <= pixels.len(),
        0 <= p < pixels.len(),
    ensures
        bitmap_drawn(pixels, width, lines, x, y, color, n).len() == pixels.len(),
        bitmap_drawn(pixels, width, lines, x, y, color, n)[p] == (if x <= p % width < x + n && y
            <= p / width < y + 8 && has_bit(lines[p % width - x], p / width - y) {
            color
        } else {
            pixels[p]
        }),
    decreases n,
{
    if n > 0 {
        let before = bitmap_drawn(pixels, width, lines, x, y, color, n - 1);
        lemma_bitmap_drawn(pixels, width, lines, x, y, color, n - 1, p);
        lemma_column_drawn(before, width, lines[n - 1], x + n - 1, y, color, 8, p);
    }
}

/// A rectangle without a pixel leaves the frame as it is.
pub proof fn lemma_rect_filled_empty(
    pixels: Seq<Rgb>,
    width: int,
    x: int,
    y: int,
    w: int,
    h: int,
    color: Rgb,
)
    requires
        w <= 0 || h <= 0,
    ensures
        rect_filled(pixels, width, x, y, w, h, color) == pixels,
    decreases h,
{
    if h > 0 {
        lemma_rect_filled_empty(pixels, width, x, y, w, h - 1, color);
    }
}

/// Sets the pixel in column `x` of row `y`, if the buffer has it.
pub fn set_pixel_nowrap(pixels: &mut Vec<Rgb>, width: i32, x: i32, y: i32, color: Rgb)
    requires
        width > 0,
    ensures
        final(pixels)@ == put(old(pixels)@, width as int, x as int, y as int, color),
        final(pixels)@.len() == old(pixels)@.len(),
{
    if x >= 0 && y >= 0 {
        assert(0 <= y * width <= 0x7fff_ffff * 0x7fff_ffff) by (nonlinear_arith)
            requires
                0 <= y <= 0x7fff_ffff,
                0 < width <= 0x7fff_ffff,
        ;
        let at: u64 = y as u64 * width as u64 + x as u64;
        if at < pixels.len() as u64 {
            pixels[at as usize] = color;
        }
    }
}

/// Fills the rectangle of `w` by `h` pixels whose top left pixel is `(x, y)`.
pub fn fill_rect(pixels: &mut Vec<Rgb>, width: i32, x: i32, y: i32, w: i32, h: i32, color: Rgb)
    requires
        width > 0,
        w > 0 && h > 0 ==> x + w <= i32::MAX && y + h <= i32::MAX,
    ensures
        final(pixels)@ == rect_filled(
            old(pixels)@,
            width as int,
            x as int,
            y as int,
            w as int,
            h as int,
            color,
        ),
        final(pixels)@.len() == old(pixels)@.len(),
{
    if w <= 0 || h <= 0 {
        proof {
            lemma_rect_filled_empty(pixels@, width as int, x as int, y as int, w as int, h as int, color);
        }
        return ;
    }
    let mut row: i32 = 0;
    while row < h
        invariant
            pixels@.len() == old(pixels)@.len(),
            width > 0,
            x + w <= i32::MAX,
            y + h <= i32::MAX,
            0 < w,
            0 <= row <= h,
            pixels@ == rect_filled(
                old(pixels)@,
                width as int,
                x as int,
                y as int,
                w as int,
                row as int,
                color,
            ),
        decreases h - row,
    {
        let ghost before = pixels@;
        let mut col: i32 = 0;
        while col < w
            invariant
                pixels@.len() == old(pixels)@.len(),
                width > 0,
                x + w <= i32::MAX,
                y + h <= i32::MAX,
                0 <= row < h,
                0 <= col <= w,
                pixels@ == row_filled(
                    before,
                    width as int,
                    x as int,
                    y + row,
                    col as int,
                    color,
                ),
            decreases w - col,
        {
            set_pixel_nowrap(pixels, width, x + col, y + row, color);
            col += 1;
        }
        row += 1;
    }
}

/// Draws a bitmap of one byte to a column, the first column at `(x, y)`:
/// bit `k` of a byte, where set, colours the pixel `k` rows below the top.
pub fn draw_bitmap(pixels: &mut Vec<Rgb>, width: i32, lines: &[u8], x: i32, y: i32, color: Rgb)
    requires
        width > 0,
        lines@.len() <= i32::MAX,
        x + lines@.len() <= i32::MAX,
        y + 8 <= i32::MAX,
    ensures
        final(pixels)@ == bitmap_drawn(
            old(pixels)@,
            width as int,
            lines@,
            x as int,
            y as int,
            color,
            lines@.len() as int,
        ),
        final(pixels)@.len() == old(pixels)@.len(),
{
    let mut i: usize = 0;
    while i < lines.len()
        invariant
            pixels@.len() == old(pixels)@.len(),
            width > 0,
            lines@.len() <= i32::MAX,
            x + lines@.len() <= i32::MAX,
            y + 8 <= i32::MAX,
            i <= lines@.len(),
            pixels@ == bitmap_drawn(
                old(pixels)@,
                width as int,
                lines@,
                x as int,
                y as int,
                color,
                i as int,
            ),
        decreases lines@.len() - i,
    {
        let line: u8 = lines[i];
        let ghost before = pixels@;
        let mut b: i32 = 0;
        let mut mask: u16 = 1;
        while b < 8
            invariant
                pixels@.len() == old(pixels)@.len(),
                width > 0,
                lines@.len() <= i32::MAX,
                x + lines@.len() <= i32::MAX,
                y + 8 <= i32::MAX,
                i < lines@.len(),
                0 <= b <= 8,
                b < 8 ==> mask as int == bit_weight(b as int),
                pixels@ == column_drawn(
                    before,
                    width as int,
                    line,
                    x + i,
                    y as int,
                    color,
                    b as int,
                ),
            decreases 8 - b,
        {
            if (line as u16 / mask) % 2 == 1 {
                set_pixel_nowrap(pixels, width, x + i as i32, y + b, color);
            }
            b += 1;
            if b < 8 {
                mask = mask * 2;
            }
        }
        i += 1;
    }
}

} // verus!
