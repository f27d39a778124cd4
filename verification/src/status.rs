//! The status strip below the grid: 22 rows that show the generation, the
//! population, the speed, the transform of the patterns and the size of the
//! grid.
//!
//! The strip is drawn by pixel index, not by cell: on a frame too narrow for
//! it, what does not fit in a row runs on into the next, and what falls
//! behind the end of the frame is dropped.

use vstd::prelude::*;
use crate::canvas::{bitmap_drawn, draw_bitmap, fill_rect, put, rect_filled, set_pixel_nowrap};
use crate::cell::{Rgb, aqua, azure, black, gray, green, red, white};
use crate::glyphs::{
    count_digits,
    decimal_digits,
    draw_int,
    int_drawn,
    DigitStyle,
    BITMAP_ICON_FLIP_X,
    BITMAP_ICON_FLIP_XY,
    BITMAP_ICON_FLIP_Y,
    BITMAP_SLASH,
    BITMAP_TIMES,
    TEXT_BITMAP_GENERATION,
    TEXT_BITMAP_MACRO,
    TEXT_BITMAP_POPULATION,
    TEXT_BITMAP_SPEED,
};
use crate::overlay::MAX_SIDE;
use crate::patterns::{pattern_offsets, placed_offsets, GLIDER};

verus! {

/// Height of the status strip, in pixels.
pub const INFO_HEIGHT: i32 = 22;

/// Column of the line that closes the generation box.
pub const GEN_BOX_END: i32 = 95;

/// Column of the generation count.
pub const GEN_X: i32 = 54;

/// Column of the population count.
pub const POP_X: i32 = 141;

/// Column of the slash between the population and the number of cells.
pub const SLASH_X: i32 = 181;

/// Column of the number of cells.
pub const CELLS_X: i32 = 185;

/// Column of the speed.
pub const SPEED_X: i32 = 74;

/// Column of the speed that the simulation reaches when it falls behind.
pub const ACTUAL_SPEED_X: i32 = 47;

/// Column where the display of the transform begins.
pub const MACRO_X: i32 = 133;

/// Column of the line that closes the population box, for a grid of `cells`
/// cells.
pub open spec fn pop_box_end(cells: nat) -> int {
    186 + 5 * decimal_digits(cells)
}

/// The frame with the generation and the population shown.
pub open spec fn info_drawn(
    pixels: Seq<Rgb>,
    width: int,
    height: int,
    style: DigitStyle,
    generation: int,
    population: int,
) -> Seq<Rgb> {
    int_drawn(
        int_drawn(pixels, width, style, generation, 8, GEN_X as int, height + 2, white(), true),
        width,
        style,
        population,
        8,
        POP_X as int,
        height + 2,
        white(),
        true,
    )
}

/// The frame with the speed shown.
pub open spec fn speed_drawn(
    pixels: Seq<Rgb>,
    width: int,
    height: int,
    style: DigitStyle,
    speed: int,
) -> Seq<Rgb> {
    int_drawn(pixels, width, style, speed, 4, SPEED_X as int, height + 13, white(), true)
}

/// The frame with the speed reached shown in red if it is below the speed
/// asked for, and with its place cleared if not.
pub open spec fn effective_drawn(
    pixels: Seq<Rgb>,
    width: int,
    height: int,
    style: DigitStyle,
    effective: int,
    speed: int,
) -> Seq<Rgb> {
    let cleared = rect_filled(pixels, width, ACTUAL_SPEED_X as int, height + 13, 19, 7, black());
    if effective < speed {
        int_drawn(
            cleared,
            width,
            style,
            effective,
            4,
            ACTUAL_SPEED_X as int,
            height + 13,
            red(),
            false,
        )
    } else {
        cleared
    }
}

/// The frame with the first `n` of `offsets` drawn as white pixels round
/// `(x, y)`.
pub open spec fn dots_drawn(
    pixels: Seq<Rgb>,
    width: int,
    offsets: Seq<(int, int)>,
    x: int,
    y: int,
    n: int,
) -> Seq<Rgb>
    decreases n,
{
    if n <= 0 {
        pixels
    } else {
        put(
            dots_drawn(pixels, width, offsets, x, y, n - 1),
            width,
            x + offsets[n - 1].0,
            y + offsets[n - 1].1,
            white(),
        )
    }
}

/// The frame with the transform shown: a glider as it would be placed, and
/// an icon for each flag that is set.
pub open spec fn macro_drawn(
    pixels: Seq<Rgb>,
    width: int,
    height: int,
    swap_xy: bool,
    flip_x: bool,
    flip_y: bool,
) -> Seq<Rgb> {
    let cleared = rect_filled(pixels, width, MACRO_X as int, height + 13, 40, 7, black());
    let glider = placed_offsets(GLIDER@, 3, 3, swap_xy, flip_x, flip_y);
    let dotted = dots_drawn(
        cleared,
        width,
        glider,
        MACRO_X + 36,
        height + 16,
        glider.len() as int,
    );
    let a = if swap_xy {
        bitmap_drawn(dotted, width, BITMAP_ICON_FLIP_XY@, MACRO_X + 8, height + 13, azure(), 5)
    } else {
        dotted
    };
    let b = if flip_x {
        bitmap_drawn(a, width, BITMAP_ICON_FLIP_X@, MACRO_X + 16, height + 13, red(), 7)
    } else {
        a
    };
    if flip_y {
        bitmap_drawn(b, width, BITMAP_ICON_FLIP_Y@, MACRO_X + 24, height + 13, green(), 7)
    } else {
        b
    }
}

/// The frame with the fixed parts of the strip drawn: the lines of its
/// boxes, the labels, the number of cells and the size of the grid.
pub open spec fn frame_drawn(pixels: Seq<Rgb>, width: int, height: int, style: DigitStyle) -> Seq<
    Rgb,
> {
    let cells = (width * height) as nat;
    let box_end = pop_box_end(cells);
    let width_digits = decimal_digits(width as nat);
    let a = rect_filled(pixels, width, 0, height, width, 1, aqua());
    let b = rect_filled(a, width, 0, height + 11, width, 1, aqua());
    let c = rect_filled(b, width, 0, height, 1, INFO_HEIGHT as int, aqua());
    let d = rect_filled(c, width, GEN_BOX_END as int, height, 1, INFO_HEIGHT as int, aqua());
    let e = rect_filled(d, width, box_end, height, 1, 11, aqua());
    let f = bitmap_drawn(e, width, TEXT_BITMAP_GENERATION@, 3, height + 2, gray(), 50);
    let g = bitmap_drawn(f, width, TEXT_BITMAP_SPEED@, 3, height + 13, gray(), 39);
    let h = bitmap_drawn(g, width, TEXT_BITMAP_POPULATION@, GEN_BOX_END + 3, height + 2, gray(), 42);
    let i = put(h, width, GEN_BOX_END + 12, height + 10, gray());
    let j = bitmap_drawn(i, width, BITMAP_SLASH@, SLASH_X as int, height + 2, gray(), 3);
    let k = int_drawn(
        j,
        width,
        style,
        cells as int,
        decimal_digits(cells),
        CELLS_X as int,
        height + 2,
        white(),
        false,
    );
    let l = bitmap_drawn(k, width, TEXT_BITMAP_MACRO@, GEN_BOX_END + 3, height + 13, gray(), 27);
    let m = int_drawn(l, width, style, width, width_digits, box_end + 3, height + 2, white(), false);
    let n = bitmap_drawn(
        m,
        width,
        BITMAP_TIMES@,
        box_end + 3 + width_digits * 5,
        height + 2,
        gray(),
        5,
    );
    int_drawn(
        n,
        width,
        style,
        height,
        decimal_digits(height as nat),
        box_end + 3 + width_digits * 5 + 6,
        height + 2,
        white(),
        false,
    )
}

/// Shows the generation and the population.
pub(crate) fn draw_info(
    pixels: &mut Vec<Rgb>,
    width: i32,
    height: i32,
    style: DigitStyle,
    generation: u64,
    population: u64,
)
    requires
        0 < width <= MAX_SIDE,
        0 < height <= MAX_SIDE,
    ensures
        final(pixels)@ == info_drawn(
            old(pixels)@,
            width as int,
            height as int,
            style,
            generation as int,
            population as int,
        ),
        final(pixels)@.len() == old(pixels)@.len(),
{
    draw_int(pixels, width, style, generation, 8, GEN_X, height + 2, white(), true);
    draw_int(pixels, width, style, population, 8, POP_X, height + 2, white(), true);
}

/// Shows the speed.
pub(crate) fn draw_speed(pixels: &mut Vec<Rgb>, width: i32, height: i32, style: DigitStyle, speed: i32)
    requires
        0 < width <= MAX_SIDE,
        0 < height <= MAX_SIDE,
        0 <= speed,
    ensures
        final(pixels)@ == speed_drawn(
            old(pixels)@,
            width as int,
            height as int,
            style,
            speed as int,
        ),
        final(pixels)@.len() == old(pixels)@.len(),
{
    draw_int(pixels, width, style, speed as u64, 4, SPEED_X, height + 13, white(), true);
}

/// Shows the speed reached, if it is below the speed asked for.
pub(crate) fn draw_effective(
    pixels: &mut Vec<Rgb>,
    width: i32,
    height: i32,
    style: DigitStyle,
    effective: i32,
    speed: i32,
)
    requires
        0 < width <= MAX_SIDE,
        0 < height <= MAX_SIDE,
        0 <= effective,
    ensures
        final(pixels)@ == effective_drawn(
            old(pixels)@,
            width as int,
            height as int,
            style,
            effective as int,
            speed as int,
        ),
        final(pixels)@.len() == old(pixels)@.len(),
{
    fill_rect(pixels, width, ACTUAL_SPEED_X, height + 13, 19, 7, black());
    if effective < speed {
        draw_int(
            pixels,
            width,
            style,
            effective as u64,
            4,
            ACTUAL_SPEED_X,
            height + 13,
            red(),
            false,
        );
    }
}

/// Shows the transform.
pub(crate) fn draw_macro(
    pixels: &mut Vec<Rgb>,
    width: i32,
    height: i32,
    swap_xy: bool,
    flip_x: bool,
    flip_y: bool,
)
    requires
        0 < width <= MAX_SIDE,
        0 < height <= MAX_SIDE,
    ensures
        final(pixels)@ == macro_drawn(
            old(pixels)@,
            width as int,
            height as int,
            swap_xy,
            flip_x,
            flip_y,
        ),
        final(pixels)@.len() == old(pixels)@.len(),
{
    fill_rect(pixels, width, MACRO_X, height + 13, 40, 7, black());
    proof {
        crate::patterns::lemma_span_limit(GLIDER@);
    }
    let offsets: Vec<(i32, i32)> = pattern_offsets(&GLIDER, 3, 3, swap_xy, flip_x, flip_y);
    let ghost cleared = pixels@;
    let ghost glider = placed_offsets(GLIDER@, 3, 3, swap_xy, flip_x, flip_y);
    let mut n: usize = 0;
    while n < offsets.len()
        invariant
            pixels@.len() == old(pixels)@.len(),
            0 < width <= MAX_SIDE,
            0 < height <= MAX_SIDE,
            n <= offsets@.len(),
            offsets@.len() == glider.len(),
            glider == placed_offsets(GLIDER@, 3, 3, swap_xy, flip_x, flip_y),
            forall|m: int|
                0 <= m < offsets@.len() ==> ((#[trigger] offsets@[m]).0 as int, offsets@[m].1 as int)
                    == glider[m],
            pixels@ == dots_drawn(
                cleared,
                width as int,
                glider,
                MACRO_X + 36,
                height + 16,
                n as int,
            ),
        decreases offsets@.len() - n,
    {
        let offset: (i32, i32) = offsets[n];
        proof {
            crate::patterns::lemma_offset_range(GLIDER@, 3, 3, swap_xy, flip_x, flip_y, n as int);
            crate::patterns::lemma_span_limit(GLIDER@);
            assert((offsets@[n as int].0 as int, offsets@[n as int].1 as int) == glider[n as int]);
        }
        set_pixel_nowrap(pixels, width, MACRO_X + 36 + offset.0, height + 16 + offset.1, white());
        n += 1;
    }
    if swap_xy {
        draw_bitmap(pixels, width, &BITMAP_ICON_FLIP_XY, MACRO_X + 8, height + 13, azure());
    }
    if flip_x {
        draw_bitmap(pixels, width, &BITMAP_ICON_FLIP_X, MACRO_X + 16, height + 13, red());
    }
    if flip_y {
        draw_bitmap(pixels, width, &BITMAP_ICON_FLIP_Y, MACRO_X + 24, height + 13, green());
    }
}

/// Draws the fixed parts of the strip.
pub(crate) fn draw_frame(pixels: &mut Vec<Rgb>, width: i32, height: i32, style: DigitStyle)
    requires
        0 < width <= MAX_SIDE,
        0 < height <= MAX_SIDE,
        width * height <= i32::MAX,
    ensures
        final(pixels)@ == frame_drawn(old(pixels)@, width as int, height as int, style),
        final(pixels)@.len() == old(pixels)@.len(),
{
    assert(0 <= width * height) by (nonlinear_arith)
        requires
            0 < width,
            0 < height,
    ;
    let cells: u64 = width as u64 * height as u64;
    let cells_digits: i32 = count_digits(cells);
    let box_end: i32 = 186 + 5 * cells_digits;
    let width_digits: i32 = count_digits(width as u64);
    let height_digits: i32 = count_digits(height as u64);
    fill_rect(pixels, width, 0, height, width, 1, aqua());
    fill_rect(pixels, width, 0, height + 11, width, 1, aqua());
    fill_rect(pixels, width, 0, height, 1, INFO_HEIGHT, aqua());
    fill_rect(pixels, width, GEN_BOX_END, height, 1, INFO_HEIGHT, aqua());
    fill_rect(pixels, width, box_end, height, 1, 11, aqua());
    draw_bitmap(pixels, width, &TEXT_BITMAP_GENERATION, 3, height + 2, gray());
    draw_bitmap(pixels, width, &TEXT_BITMAP_SPEED, 3, height + 13, gray());
    draw_bitmap(pixels, width, &TEXT_BITMAP_POPULATION, GEN_BOX_END + 3, height + 2, gray());
    set_pixel_nowrap(pixels, width, GEN_BOX_END + 12, height + 10, gray());
    draw_bitmap(pixels, width, &BITMAP_SLASH, SLASH_X, height + 2, gray());
    draw_int(pixels, width, style, cells, cells_digits, CELLS_X, height + 2, white(), false);
    draw_bitmap(pixels, width, &TEXT_BITMAP_MACRO, GEN_BOX_END + 3, height + 13, gray());
    draw_int(
        pixels,
        width,
        style,
        width as u64,
        width_digits,
        box_end + 3,
        height + 2,
        white(),
        false,
    );
    draw_bitmap(pixels, width, &BITMAP_TIMES, box_end + 3 + width_digits * 5, height + 2, gray());
    draw_int(
        pixels,
        width,
        style,
        height as u64,
        height_digits,
        box_end + 3 + width_digits * 5 + 6,
        height + 2,
        white(),
        false,
    );
}

} // verus!
