//! The cursor and the selection marks, drawn over the cells of the frame and
//! taken off again by showing the cells beneath.
//!
//! Every pixel is addressed as a cell, edges joined, so the marks of a
//! selection that runs over an edge come out on the other side.

use vstd::prelude::*;
use crate::cell::{CellState, Rgb, aqua, cell_color, color_of, red};
use crate::torus::{cell_index, coord_index};

verus! {

/// The most pixels a frame can have.
pub const MAX_PIXELS: i32 = 0x4000_0000;

/// Largest width and largest height of a grid: twice as much, and a few
/// cells more, is still a coordinate.
pub const MAX_SIDE: i32 = 0x3fff_fff0;

/// What a stroke leaves on a pixel: a colour, or the cell beneath.
#[derive(Clone, Copy, Debug)]
pub enum Ink {
    Paint(Rgb),
    Cell,
}

/// The frame with the pixel of the cell at `(x, y)` inked.
pub open spec fn inked(
    pixels: Seq<Rgb>,
    cells: Seq<CellState>,
    width: int,
    height: int,
    x: int,
    y: int,
    ink: Ink,
) -> Seq<Rgb> {
    let i = cell_index(width, height, x, y);
    pixels.update(
        i,
        match ink {
            Ink::Paint(color) => color,
            Ink::Cell => color_of(cells[i]),
        },
    )
}

/// The frame with one arm pixel of the cursor cross inked on each axis:
/// `offset` cells from the cursor `c` along its row, and as many along its
/// column.
pub open spec fn arm_inked(
    pixels: Seq<Rgb>,
    cells: Seq<CellState>,
    width: int,
    height: int,
    c: (int, int),
    offset: int,
    ink: Ink,
) -> Seq<Rgb> {
    inked(
        inked(pixels, cells, width, height, c.0 + offset, c.1, ink),
        cells,
        width,
        height,
        c.0,
        c.1 + offset,
        ink,
    )
}

/// The frame with the cursor cross inked: the cells two, three and four
/// away from the cursor `c` on its row and on its column.
pub open spec fn cross_inked(
    pixels: Seq<Rgb>,
    cells: Seq<CellState>,
    width: int,
    height: int,
    c: (int, int),
    ink: Ink,
) -> Seq<Rgb> {
    let a = arm_inked(pixels, cells, width, height, c, -4, ink);
    let b = arm_inked(a, cells, width, height, c, -3, ink);
    let d = arm_inked(b, cells, width, height, c, -2, ink);
    let e = arm_inked(d, cells, width, height, c, 2, ink);
    let f = arm_inked(e, cells, width, height, c, 3, ink);
    arm_inked(f, cells, width, height, c, 4, ink)
}

/// The frame with the hook at the far corner `e` of the selection inked:
/// the cells two, three and four before the corner on its row and on its
/// column.
pub open spec fn hook_inked(
    pixels: Seq<Rgb>,
    cells: Seq<CellState>,
    width: int,
    height: int,
    e: (int, int),
    ink: Ink,
) -> Seq<Rgb> {
    let a = arm_inked(pixels, cells, width, height, e, -2, ink);
    let b = arm_inked(a, cells, width, height, e, -3, ink);
    arm_inked(b, cells, width, height, e, -4, ink)
}

/// Number of steps of `step` that start at `from` and stay below `to`.
pub open spec fn steps(from: int, to: int, step: int) -> int {
    if to > from {
        (to - from + step - 1) / step
    } else {
        0
    }
}

/// The frame with the first `k` dashes of the selection's long sides drawn:
/// one dash every four cells, on the near side `c.1` and, shifted, on the
/// far side `e.1`.
pub open spec fn row_dashes(
    pixels: Seq<Rgb>,
    cells: Seq<CellState>,
    width: int,
    height: int,
    c: (int, int),
    e: (int, int),
    k: int,
) -> Seq<Rgb>
    decreases k,
{
    if k <= 0 {
        pixels
    } else {
        let x = c.0 + 3 + 4 * (k - 1);
        let p = row_dashes(pixels, cells, width, height, c, e, k - 1);
        let a = inked(p, cells, width, height, x + 4, c.1, Ink::Paint(aqua()));
        let b = inked(a, cells, width, height, x + 5, c.1, Ink::Paint(aqua()));
        let d = inked(b, cells, width, height, x + 1, e.1, Ink::Paint(aqua()));
        inked(d, cells, width, height, x, e.1, Ink::Paint(aqua()))
    }
}

/// The frame with the first `k` dashes of the selection's upright sides
/// drawn.
pub open spec fn column_dashes(
    pixels: Seq<Rgb>,
    cells: Seq<CellState>,
    width: int,
    height: int,
    c: (int, int),
    e: (int, int),
    k: int,
) -> Seq<Rgb>
    decreases k,
{
    if k <= 0 {
        pixels
    } else {
        let y = c.1 + 3 + 4 * (k - 1);
        let p = column_dashes(pixels, cells, width, height, c, e, k - 1);
        let a = inked(p, cells, width, height, c.0, y + 4, Ink::Paint(aqua()));
        let b = inked(a, cells, width, height, c.0, y + 5, Ink::Paint(aqua()));
        let d = inked(b, cells, width, height, e.0, y, Ink::Paint(aqua()));
        inked(d, cells, width, height, e.0, y + 1, Ink::Paint(aqua()))
    }
}

/// The frame with the marks of the selection from `c` to `e` drawn: the
/// three corners other than the cursor's, the hook, and the dashes.
pub open spec fn selection_drawn(
    pixels: Seq<Rgb>,
    cells: Seq<CellState>,
    width: int,
    height: int,
    c: (int, int),
    e: (int, int),
) -> Seq<Rgb> {
    let ink = Ink::Paint(aqua());
    let a = inked(pixels, cells, width, height, c.0, e.1, ink);
    let b = inked(a, cells, width, height, e.0, c.1, ink);
    let d = inked(b, cells, width, height, e.0, e.1, ink);
    let f = hook_inked(d, cells, width, height, e, ink);
    let g = row_dashes(f, cells, width, height, c, e, steps(c.0 + 3, e.0 - 6, 4));
    column_dashes(g, cells, width, height, c, e, steps(c.1 + 3, e.1 - 6, 4))
}

/// The far corner of the selection: the last cell of its last row. Without
/// a selection, that of the whole grid laid out from the cursor.
pub open spec fn selection_end(
    width: int,
    height: int,
    c: (int, int),
    selection: Option<(int, int)>,
) -> (int, int) {
    match selection {
        Some(size) => (c.0 + size.0 - 1, c.1 + size.1 - 1),
        None => (c.0 + width - 1, c.1 + height - 1),
    }
}

/// The frame with the cursor and the selection marks drawn, unless the
/// cursor is hidden.
pub open spec fn cursor_drawn(
    pixels: Seq<Rgb>,
    cells: Seq<CellState>,
    width: int,
    height: int,
    c: (int, int),
    selection: Option<(int, int)>,
    hidden: bool,
) -> Seq<Rgb> {
    if hidden {
        pixels
    } else {
        let marked = if selection is Some {
            selection_drawn(
                pixels,
                cells,
                width,
                height,
                c,
                selection_end(width, height, c, selection),
            )
        } else {
            pixels
        };
        cross_inked(marked, cells, width, height, c, Ink::Paint(red()))
    }
}

/// The frame with the first `k` cells of the selection's long sides shown
/// again.
pub open spec fn row_cleared(
    pixels: Seq<Rgb>,
    cells: Seq<CellState>,
    width: int,
    height: int,
    c: (int, int),
    e: (int, int),
    k: int,
) -> Seq<Rgb>
    decreases k,
{
    if k <= 0 {
        pixels
    } else {
        let x = c.0 + k - 1;
        let p = row_cleared(pixels, cells, width, height, c, e, k - 1);
        let a = inked(p, cells, width, height, x + 4, c.1, Ink::Cell);
        inked(a, cells, width, height, x, e.1, Ink::Cell)
    }
}

/// The frame with the first `k` cells of the selection's upright sides shown
/// again.
pub open spec fn column_cleared(
    pixels: Seq<Rgb>,
    cells: Seq<CellState>,
    width: int,
    height: int,
    c: (int, int),
    e: (int, int),
    k: int,
) -> Seq<Rgb>
    decreases k,
{
    if k <= 0 {
        pixels
    } else {
        let y = c.1 + k - 1;
        let p = column_cleared(pixels, cells, width, height, c, e, k - 1);
        let a = inked(p, cells, width, height, c.0, y + 4, Ink::Cell);
        inked(a, cells, width, height, e.0, y, Ink::Cell)
    }
}

/// The frame with the marks of the selection taken off: the far corner, the
/// hook, and the sides as far as they reach from the cursor to the corner.
pub open spec fn selection_erased(
    pixels: Seq<Rgb>,
    cells: Seq<CellState>,
    width: int,
    height: int,
    c: (int, int),
    selection: Option<(int, int)>,
) -> Seq<Rgb> {
    if selection is Some {
        let e = selection_end(width, height, c, selection);
        let a = inked(pixels, cells, width, height, e.0, e.1, Ink::Cell);
        let b = hook_inked(a, cells, width, height, e, Ink::Cell);
        let d = row_cleared(b, cells, width, height, c, e, e.0 - c.0);
        column_cleared(d, cells, width, height, c, e, e.1 - c.1)
    } else {
        pixels
    }
}

/// The frame with the selection marks and the cursor cross taken off.
pub open spec fn cursor_erased(
    pixels: Seq<Rgb>,
    cells: Seq<CellState>,
    width: int,
    height: int,
    c: (int, int),
    selection: Option<(int, int)>,
) -> Seq<Rgb> {
    cross_inked(
        selection_erased(pixels, cells, width, height, c, selection),
        cells,
        width,
        height,
        c,
        Ink::Cell,
    )
}

/// What the drawing functions of this file ask of a grid: the frame holds a
/// pixel for every cell, and no coordinate near the grid overflows.
pub open spec fn grid_fits(pixels: Seq<Rgb>, cells: Seq<CellState>, width: int, height: int) -> bool {
    &&& 0 < width <= MAX_SIDE
    &&& 0 < height <= MAX_SIDE
    &&& width * height <= MAX_PIXELS
    &&& cells.len() == width * height
    &&& pixels.len() >= cells.len()
}

/// Whether `c` is a cell of the grid and `selection`, if any, no larger than
/// the grid.
pub open spec fn cursor_fits(
    width: int,
    height: int,
    c: (int, int),
    selection: Option<(int, int)>,
) -> bool {
    &&& 0 <= c.0 < width
    &&& 0 <= c.1 < height
    &&& selection matches Some(size) ==> 0 <= size.0 <= width && 0 <= size.1 <= height
}

/// Inks the pixel of the cell at `(x, y)`.
pub(crate) fn ink_cell(
    pixels: &mut Vec<Rgb>,
    cells: &Vec<CellState>,
    width: i32,
    height: i32,
    x: i32,
    y: i32,
    ink: Ink,
)
    requires
        grid_fits(old(pixels)@, cells@, width as int, height as int),
    ensures
        final(pixels)@ == inked(
            old(pixels)@,
            cells@,
            width as int,
            height as int,
            x as int,
            y as int,
            ink,
        ),
        final(pixels)@.len() == old(pixels)@.len(),
{
    let i: usize = coord_index(width, height, x, y);
    let color: Rgb = match ink {
        Ink::Paint(color) => color,
        Ink::Cell => cell_color(cells[i]),
    };
    pixels[i] = color;
}

fn ink_arm(
    pixels: &mut Vec<Rgb>,
    cells: &Vec<CellState>,
    width: i32,
    height: i32,
    c: (i32, i32),
    offset: i32,
    ink: Ink,
)
    requires
        grid_fits(old(pixels)@, cells@, width as int, height as int),
        -4 <= offset <= 4,
        -1 <= c.0 <= 2 * MAX_SIDE,
        -1 <= c.1 <= 2 * MAX_SIDE,
    ensures
        final(pixels)@ == arm_inked(
            old(pixels)@,
            cells@,
            width as int,
            height as int,
            (c.0 as int, c.1 as int),
            offset as int,
            ink,
        ),
        final(pixels)@.len() == old(pixels)@.len(),
{
    ink_cell(pixels, cells, width, height, c.0 + offset, c.1, ink);
    ink_cell(pixels, cells, width, height, c.0, c.1 + offset, ink);
}

fn ink_cross(
    pixels: &mut Vec<Rgb>,
    cells: &Vec<CellState>,
    width: i32,
    height: i32,
    c: (i32, i32),
    ink: Ink,
)
    requires
        grid_fits(old(pixels)@, cells@, width as int, height as int),
        0 <= c.0 < width,
        0 <= c.1 < height,
    ensures
        final(pixels)@ == cross_inked(
            old(pixels)@,
            cells@,
            width as int,
            height as int,
            (c.0 as int, c.1 as int),
            ink,
        ),
        final(pixels)@.len() == old(pixels)@.len(),
{
    ink_arm(pixels, cells, width, height, c, -4, ink);
    ink_arm(pixels, cells, width, height, c, -3, ink);
    ink_arm(pixels, cells, width, height, c, -2, ink);
    ink_arm(pixels, cells, width, height, c, 2, ink);
    ink_arm(pixels, cells, width, height, c, 3, ink);
    ink_arm(pixels, cells, width, height, c, 4, ink);
}

fn ink_hook(
    pixels: &mut Vec<Rgb>,
    cells: &Vec<CellState>,
    width: i32,
    height: i32,
    e: (i32, i32),
    ink: Ink,
)
    requires
        grid_fits(old(pixels)@, cells@, width as int, height as int),
        -1 <= e.0 <= 2 * MAX_SIDE,
        -1 <= e.1 <= 2 * MAX_SIDE,
    ensures
        final(pixels)@ == hook_inked(
            old(pixels)@,
            cells@,
            width as int,
            height as int,
            (e.0 as int, e.1 as int),
            ink,
        ),
        final(pixels)@.len() == old(pixels)@.len(),
{
    ink_arm(pixels, cells, width, height, e, -2, ink);
    ink_arm(pixels, cells, width, height, e, -3, ink);
    ink_arm(pixels, cells, width, height, e, -4, ink);
}

/// The far corner of the selection, or of the whole grid laid out from the
/// cursor where nothing is selected.
pub(crate) fn far_corner(width: i32, height: i32, c: (i32, i32), selection: Option<(i32, i32)>) -> (e: (
    i32,
    i32,
))
    requires
        0 < width <= MAX_SIDE,
        0 < height <= MAX_SIDE,
        cursor_fits(
            width as int,
            height as int,
            (c.0 as int, c.1 as int),
            match selection {
                Some(size) => Some((size.0 as int, size.1 as int)),
                None => None,
            },
        ),
    ensures
        (e.0 as int, e.1 as int) == selection_end(
            width as int,
            height as int,
            (c.0 as int, c.1 as int),
            match selection {
                Some(size) => Some((size.0 as int, size.1 as int)),
                None => None,
            },
        ),
        c.0 - 1 <= e.0 < c.0 + width,
        c.1 - 1 <= e.1 < c.1 + height,
{
    match selection {
        Some(size) => (c.0 + size.0 - 1, c.1 + size.1 - 1),
        None => (c.0 + width - 1, c.1 + height - 1),
    }
}

/// Draws the selection marks and the cursor cross, unless the cursor is
/// hidden.
pub(crate) fn draw_cursor(
    pixels: &mut Vec<Rgb>,
    cells: &Vec<CellState>,
    width: i32,
    height: i32,
    c: (i32, i32),
    selection: Option<(i32, i32)>,
    hidden: bool,
)
    requires
        grid_fits(old(pixels)@, cells@, width as int, height as int),
        cursor_fits(
            width as int,
            height as int,
            (c.0 as int, c.1 as int),
            match selection {
                Some(size) => Some((size.0 as int, size.1 as int)),
                None => None,
            },
        ),
    ensures
        final(pixels)@ == cursor_drawn(
            old(pixels)@,
            cells@,
            width as int,
            height as int,
            (c.0 as int, c.1 as int),
            match selection {
                Some(size) => Some((size.0 as int, size.1 as int)),
                None => None,
            },
            hidden,
        ),
        final(pixels)@.len() == old(pixels)@.len(),
{
    if hidden {
        return ;
    }
    let ghost w = width as int;
    let ghost h = height as int;
    let ghost cc = (c.0 as int, c.1 as int);
    if selection.is_some() {
        let e: (i32, i32) = far_corner(width, height, c, selection);
        let ghost ee = (e.0 as int, e.1 as int);
        let ink: Ink = Ink::Paint(aqua());
        ink_cell(pixels, cells, width, height, c.0, e.1, ink);
        ink_cell(pixels, cells, width, height, e.0, c.1, ink);
        ink_cell(pixels, cells, width, height, e.0, e.1, ink);
        ink_hook(pixels, cells, width, height, e, ink);
        let ghost hooked = pixels@;
        let mut x: i32 = c.0 + 3;
        while x < e.0 - 6
            invariant
                grid_fits(pixels@, cells@, w, h),
                pixels@.len() == hooked.len(),
                w == width,
                h == height,
                cc == (c.0 as int, c.1 as int),
                ee == (e.0 as int, e.1 as int),
                0 <= c.0 < width,
                c.0 - 1 <= e.0 < c.0 + width,
                ink == Ink::Paint(aqua()),
                c.0 + 3 <= x,
                x == c.0 + 3 || x - 4 < e.0 - 6,
                (x - (c.0 + 3)) % 4 == 0,
                pixels@ == row_dashes(hooked, cells@, w, h, cc, ee, (x - (c.0 + 3)) / 4),
            decreases e.0 - x,
        {
            ink_cell(pixels, cells, width, height, x + 4, c.1, ink);
            ink_cell(pixels, cells, width, height, x + 5, c.1, ink);
            ink_cell(pixels, cells, width, height, x + 1, e.1, ink);
            ink_cell(pixels, cells, width, height, x, e.1, ink);
            x += 4;
        }
        let ghost dashed = pixels@;
        assert(dashed == row_dashes(hooked, cells@, w, h, cc, ee, steps(c.0 + 3, e.0 - 6, 4)));
        let mut y: i32 = c.1 + 3;
        while y < e.1 - 6
            invariant
                grid_fits(pixels@, cells@, w, h),
                pixels@.len() == hooked.len(),
                w == width,
                h == height,
                cc == (c.0 as int, c.1 as int),
                ee == (e.0 as int, e.1 as int),
                0 <= c.1 < height,
                c.1 - 1 <= e.1 < c.1 + height,
                ink == Ink::Paint(aqua()),
                c.1 + 3 <= y,
                y == c.1 + 3 || y - 4 < e.1 - 6,
                (y - (c.1 + 3)) % 4 == 0,
                pixels@ == column_dashes(dashed, cells@, w, h, cc, ee, (y - (c.1 + 3)) / 4),
            decreases e.1 - y,
        {
            ink_cell(pixels, cells, width, height, c.0, y + 4, ink);
            ink_cell(pixels, cells, width, height, c.0, y + 5, ink);
            ink_cell(pixels, cells, width, height, e.0, y, ink);
            ink_cell(pixels, cells, width, height, e.0, y + 1, ink);
            y += 4;
        }
        assert(pixels@ == column_dashes(dashed, cells@, w, h, cc, ee, steps(c.1 + 3, e.1 - 6, 4)));
    }
    ink_cross(pixels, cells, width, height, c, Ink::Paint(red()));
}

/// Takes the selection marks off the frame.
pub(crate) fn erase_selection(
    pixels: &mut Vec<Rgb>,
    cells: &Vec<CellState>,
    width: i32,
    height: i32,
    c: (i32, i32),
    selection: Option<(i32, i32)>,
)
    requires
        grid_fits(old(pixels)@, cells@, width as int, height as int),
        cursor_fits(
            width as int,
            height as int,
            (c.0 as int, c.1 as int),
            match selection {
                Some(size) => Some((size.0 as int, size.1 as int)),
                None => None,
            },
        ),
    ensures
        final(pixels)@ == selection_erased(
            old(pixels)@,
            cells@,
            width as int,
            height as int,
            (c.0 as int, c.1 as int),
            match selection {
                Some(size) => Some((size.0 as int, size.1 as int)),
                None => None,
            },
        ),
        final(pixels)@.len() == old(pixels)@.len(),
{
    if selection.is_none() {
        return ;
    }
    let ghost w = width as int;
    let ghost h = height as int;
    let ghost cc = (c.0 as int, c.1 as int);
    let e: (i32, i32) = far_corner(width, height, c, selection);
    let ghost ee = (e.0 as int, e.1 as int);
    ink_cell(pixels, cells, width, height, e.0, e.1, Ink::Cell);
    ink_hook(pixels, cells, width, height, e, Ink::Cell);
    let ghost hooked = pixels@;
    let mut x: i32 = c.0;
    while x < e.0
        invariant
            grid_fits(pixels@, cells@, w, h),
            pixels@.len() == hooked.len(),
            w == width,
            h == height,
            cc == (c.0 as int, c.1 as int),
            ee == (e.0 as int, e.1 as int),
            0 <= c.0 < width,
            c.0 - 1 <= e.0 < c.0 + width,
            c.0 <= x,
            x <= e.0 || x == c.0,
            pixels@ == row_cleared(hooked, cells@, w, h, cc, ee, x - c.0),
        decreases e.0 - x,
    {
        ink_cell(pixels, cells, width, height, x + 4, c.1, Ink::Cell);
        ink_cell(pixels, cells, width, height, x, e.1, Ink::Cell);
        x += 1;
    }
    let ghost sided = pixels@;
    assert(sided == row_cleared(hooked, cells@, w, h, cc, ee, e.0 - c.0));
    let mut y: i32 = c.1;
    while y < e.1
        invariant
            grid_fits(pixels@, cells@, w, h),
            pixels@.len() == hooked.len(),
            w == width,
            h == height,
            cc == (c.0 as int, c.1 as int),
            ee == (e.0 as int, e.1 as int),
            0 <= c.1 < height,
            c.1 - 1 <= e.1 < c.1 + height,
            c.1 <= y,
            y <= e.1 || y == c.1,
            pixels@ == column_cleared(sided, cells@, w, h, cc, ee, y - c.1),
        decreases e.1 - y,
    {
        ink_cell(pixels, cells, width, height, c.0, y + 4, Ink::Cell);
        ink_cell(pixels, cells, width, height, e.0, y, Ink::Cell);
        y += 1;
    }
    assert(pixels@ == column_cleared(sided, cells@, w, h, cc, ee, e.1 - c.1));
}

/// Takes the selection marks and the cursor cross off the frame.
pub(crate) fn erase_cursor(
    pixels: &mut Vec<Rgb>,
    cells: &Vec<CellState>,
    width: i32,
    height: i32,
    c: (i32, i32),
    selection: Option<(i32, i32)>,
)
    requires
        grid_fits(old(pixels)@, cells@, width as int, height as int),
        cursor_fits(
            width as int,
            height as int,
            (c.0 as int, c.1 as int),
            match selection {
                Some(size) => Some((size.0 as int, size.1 as int)),
                None => None,
            },
        ),
    ensures
        final(pixels)@ == cursor_erased(
            old(pixels)@,
            cells@,
            width as int,
            height as int,
            (c.0 as int, c.1 as int),
            match selection {
                Some(size) => Some((size.0 as int, size.1 as int)),
                None => None,
            },
        ),
        final(pixels)@.len() == old(pixels)@.len(),
{
    erase_selection(pixels, cells, width, height, c, selection);
    ink_cross(pixels, cells, width, height, c, Ink::Cell);
}

} // verus!
