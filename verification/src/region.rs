//! Work on rectangles of cells, edges joined: filling, stamping a pattern,
//! reading the bits of a rectangle and pasting bits into one.

use vstd::prelude::*;
use crate::cell::{CellState, Rgb, cell_color, color_of, white};
use crate::codec::{
    bit_of,
    readable_cells,
    stream_bit,
    symbol_for_cell,
    symbol_value,
    value_of,
    weight,
    lemma_readable_all,
    lemma_readable_stop,
};
use crate::engine::{alive_matches, repainted};
use crate::overlay::{MAX_PIXELS, MAX_SIDE};
use crate::rng::{cell_of_word, next_word, rng_after, seed_rng, seeded_word};
use crate::state::{
    clip_hits,
    clip_pasted,
    all_painted,
    clip_target,
    columns_on,
    random_cells,
    rect_painted,
    rect_set,
    region_bits,
    rows_on,
    stamp_hits,
    stamp_target,
    stamped,
    tile_origin,
    tiles_pasted,
};
use crate::torus::{
    cell_index,
    coord_index,
    wrap,
    wrap_coord,
    lemma_index_of_cell,
    lemma_index_range,
    lemma_index_split,
    lemma_wrap_add,
    lemma_wrap_range,
    lemma_wrap_small,
    lemma_wrap_step,
};

verus! {

/// What the functions of this file ask of a grid.
pub open spec fn grid_ok(cells: Seq<CellState>, pixels: Seq<Rgb>, width: int, height: int) -> bool {
    &&& 0 < width <= MAX_SIDE
    &&& 0 < height <= MAX_SIDE
    &&& width * height <= MAX_PIXELS
    &&& cells.len() == width * height
    &&& pixels.len() >= cells.len()
}

/// The offsets of a list as pairs of integers.
pub open spec fn pairs(offsets: Seq<(i32, i32)>) -> Seq<(int, int)> {
    Seq::new(offsets.len(), |m: int| (offsets[m].0 as int, offsets[m].1 as int))
}

/// The cell `dx` columns and `dy` rows on from `c` is the one cell that is
/// `dx` columns and `dy` rows on from `c`.
pub proof fn lemma_rect_cell(width: int, height: int, c: (int, int), dx: int, dy: int, j: int)
    requires
        width > 0,
        height > 0,
        0 <= dx < width,
        0 <= dy < height,
        0 <= j < width * height,
    ensures
        (columns_on(width, c.0, j) == dx && rows_on(width, height, c.1, j) == dy) <==> j
            == cell_index(width, height, c.0 + dx, c.1 + dy),
        0 <= columns_on(width, c.0, j) < width,
        0 <= rows_on(width, height, c.1, j) < height,
{
    let i = cell_index(width, height, c.0 + dx, c.1 + dy);
    lemma_index_of_cell(width, height, j);
    lemma_wrap_range(c.0 + dx, width);
    lemma_wrap_range(c.1 + dy, height);
    lemma_index_split(width, wrap(c.1 + dy, height), wrap(c.0 + dx, width));
    lemma_wrap_small(dx, width);
    lemma_wrap_small(dy, height);
    lemma_wrap_small(j % width, width);
    lemma_wrap_small(j / width, height);
    lemma_wrap_add(c.0 + dx, -c.0, width);
    lemma_wrap_add(c.1 + dy, -c.1, height);
    lemma_wrap_add(j % width - c.0, c.0, width);
    lemma_wrap_add(j / width - c.1, c.1, height);
    lemma_wrap_range(j % width - c.0, width);
    lemma_wrap_range(j / width - c.1, height);
    if wrap(j % width - c.0, width) == dx && wrap(j / width - c.1, height) == dy {
        assert(j % width == wrap(c.0 + dx, width));
        assert(j / width == wrap(c.1 + dy, height));
    }
}

/// Sets every cell of the rectangle of `size` whose first cell is `c` to
/// `state`, and paints it.
pub(crate) fn fill_cells(
    cells: &mut Vec<CellState>,
    pixels: &mut Vec<Rgb>,
    width: i32,
    height: i32,
    c: (i32, i32),
    size: (i32, i32),
    state: CellState,
)
    requires
        grid_ok(old(cells)@, old(pixels)@, width as int, height as int),
        0 <= c.0 < width,
        0 <= c.1 < height,
        0 <= size.0 <= width,
        0 <= size.1 <= height,
    ensures
        final(cells)@ == rect_set(
            old(cells)@,
            width as int,
            height as int,
            (c.0 as int, c.1 as int),
            (size.0 as int, size.1 as int),
            state,
        ),
        final(pixels)@ == rect_painted(
            old(pixels)@,
            width as int,
            height as int,
            (c.0 as int, c.1 as int),
            (size.0 as int, size.1 as int),
            state,
        ),
{
    let ghost w = width as int;
    let ghost h = height as int;
    let ghost cc = (c.0 as int, c.1 as int);
    let color: Rgb = cell_color(state);
    let mut dy: i32 = 0;
    assert(cells@ =~= rect_set(old(cells)@, w, h, cc, (size.0 as int, 0), state)) by {
        assert forall|j: int| 0 <= j < w * h implies rows_on(w, h, cc.1, j) >= 0 by {
            lemma_wrap_range(j / w - cc.1, h);
        }
    }
    assert(pixels@ =~= rect_painted(old(pixels)@, w, h, cc, (size.0 as int, 0), state)) by {
        assert forall|j: int| 0 <= j < w * h implies rows_on(w, h, cc.1, j) >= 0 by {
            lemma_wrap_range(j / w - cc.1, h);
        }
    }
    while dy < size.1
        invariant
            grid_ok(cells@, pixels@, w, h),
            w == width,
            h == height,
            cc == (c.0 as int, c.1 as int),
            color == color_of(state),
            cells@.len() == old(cells)@.len(),
            pixels@.len() == old(pixels)@.len(),
            0 <= c.0 < width,
            0 <= c.1 < height,
            0 <= size.0 <= width,
            0 <= size.1 <= height,
            0 <= dy <= size.1,
            cells@ == rect_set(old(cells)@, w, h, cc, (size.0 as int, dy as int), state),
            pixels@ == rect_painted(old(pixels)@, w, h, cc, (size.0 as int, dy as int), state),
        decreases size.1 - dy,
    {
        let ghost row_cells = cells@;
        let ghost row_pixels = pixels@;
        let mut dx: i32 = 0;
        while dx < size.0
            invariant
                grid_ok(cells@, pixels@, w, h),
                w == width,
                h == height,
                cc == (c.0 as int, c.1 as int),
                color == color_of(state),
                cells@.len() == old(cells)@.len(),
                pixels@.len() == old(pixels)@.len(),
                0 <= c.0 < width,
                0 <= c.1 < height,
                0 <= size.0 <= width,
                0 <= size.1 <= height,
                0 <= dy < size.1,
                0 <= dx <= size.0,
                forall|j: int|
                    0 <= j < cells@.len() ==> (#[trigger] cells@[j]) == (if rows_on(w, h, cc.1, j)
                        == dy && columns_on(w, cc.0, j) < dx {
                        state
                    } else {
                        row_cells[j]
                    }),
                forall|j: int|
                    0 <= j < pixels@.len() ==> (#[trigger] pixels@[j]) == (if j < w * h && rows_on(w, h, cc.1, j) == dy && columns_on(w, cc.0, j) < dx {
                        color
                    } else {
                        row_pixels[j]
                    }),
            decreases size.0 - dx,
        {
            let i: usize = coord_index(width, height, c.0 + dx, c.1 + dy);
            let ghost cells_before = cells@;
            let ghost pixels_before = pixels@;
            cells[i] = state;
            pixels[i] = color;
            proof {
                assert forall|j: int| 0 <= j < w * h implies ((columns_on(w, cc.0, j) == dx && rows_on(w, h, cc.1, j) == dy) <==> j == i) && columns_on(w, cc.0, j) >= 0 by {
                    lemma_rect_cell(w, h, cc, dx as int, dy as int, j);
                    lemma_wrap_range(j % w - cc.0, w);
                }
                assert forall|j: int| 0 <= j < cells@.len() implies (#[trigger] cells@[j]) == (
                if rows_on(w, h, cc.1, j) == dy && columns_on(w, cc.0, j) < dx + 1 {
                    state
                } else {
                    row_cells[j]
                }) by {
                    assert(cells_before[j] == (if rows_on(w, h, cc.1, j) == dy && columns_on(w, cc.0, j) < dx {
                        state
                    } else {
                        row_cells[j]
                    }));
                }
                assert forall|j: int| 0 <= j < pixels@.len() implies (#[trigger] pixels@[j]) == (
                if j < w * h && rows_on(w, h, cc.1, j) == dy && columns_on(w, cc.0, j) < dx + 1 {
                    color
                } else {
                    row_pixels[j]
                }) by {
                    assert(pixels_before[j] == (if j < w * h && rows_on(w, h, cc.1, j) == dy
                        && columns_on(w, cc.0, j) < dx {
                        color
                    } else {
                        row_pixels[j]
                    }));
                }
            }
            dx += 1;
        }
        proof {
            assert forall|j: int| 0 <= j < w * h implies rows_on(w, h, cc.1, j) >= 0 && columns_on(w, cc.0, j) >= 0 by {
                lemma_wrap_range(j / w - cc.1, h);
                lemma_wrap_range(j % w - cc.0, w);
            }
            assert(cells@ =~= rect_set(old(cells)@, w, h, cc, (size.0 as int, dy + 1), state));
            assert(pixels@ =~= rect_painted(
                old(pixels)@,
                w,
                h,
                cc,
                (size.0 as int, dy + 1),
                state,
            ));
        }
        dy += 1;
    }
}

/// Sets the cell at index `i` alive, unless it is: lists it, and paints it.
pub(crate) fn revive(cells: &mut Vec<CellState>, pixels: &mut Vec<Rgb>, alive: &mut Vec<usize>, i: usize)
    requires
        i < old(cells)@.len(),
        old(pixels)@.len() >= old(cells)@.len(),
        alive_matches(old(alive)@, old(cells)@),
    ensures
        final(cells)@ == old(cells)@.update(i as int, CellState::Alive),
        final(pixels)@ == repainted(old(pixels)@, old(cells)@, final(cells)@),
        alive_matches(final(alive)@, final(cells)@),
{
    if cells[i] == CellState::Alive {
        assert(cells@ =~= old(cells)@.update(i as int, CellState::Alive));
        assert(pixels@ =~= repainted(old(pixels)@, old(cells)@, cells@));
        return ;
    }
    let ghost was = alive@;
    alive.push(i);
    cells[i] = CellState::Alive;
    pixels[i] = white();
    proof {
        assert(pixels@ =~= repainted(old(pixels)@, old(cells)@, cells@));
        assert forall|p: int, q: int|
            0 <= p < alive@.len() && 0 <= q < alive@.len() && p != q implies alive@[p]
            != alive@[q] by {
            if p < was.len() {
                assert(alive@[p] == was[p]);
            }
            if q < was.len() {
                assert(alive@[q] == was[q]);
            }
        }
        assert forall|p: int| 0 <= p < alive@.len() implies (#[trigger] alive@[p]) < cells@.len()
            && cells@[alive@[p] as int] == CellState::Alive by {
            if p < was.len() {
                assert(alive@[p] == was[p]);
            }
        }
        assert forall|j: int|
            0 <= j < cells@.len() && (#[trigger] cells@[j])
                == CellState::Alive implies alive@.contains(j as usize) by {
            if j == i {
                assert(alive@[was.len() as int] == i);
            } else {
                assert(old(cells)@[j] == CellState::Alive);
                assert(was.contains(j as usize));
                let p = choose|p: int| 0 <= p < was.len() && was[p] == j as usize;
                assert(alive@[p] == j as usize);
            }
        }
    }
}

/// Sets alive the cells that `offsets` name, counted from `c`.
pub(crate) fn stamp(
    cells: &mut Vec<CellState>,
    pixels: &mut Vec<Rgb>,
    alive: &mut Vec<usize>,
    width: i32,
    height: i32,
    c: (i32, i32),
    offsets: &Vec<(i32, i32)>,
)
    requires
        grid_ok(old(cells)@, old(pixels)@, width as int, height as int),
        0 <= c.0 < width,
        0 <= c.1 < height,
        alive_matches(old(alive)@, old(cells)@),
    ensures
        final(cells)@ == stamped(
            old(cells)@,
            width as int,
            height as int,
            (c.0 as int, c.1 as int),
            pairs(offsets@),
            offsets@.len() as int,
        ),
        final(pixels)@ == repainted(old(pixels)@, old(cells)@, final(cells)@),
        alive_matches(final(alive)@, final(cells)@),
{
    let ghost w = width as int;
    let ghost h = height as int;
    let ghost cc = (c.0 as int, c.1 as int);
    let ghost offs = pairs(offsets@);
    let mut n: usize = 0;
    assert(cells@ =~= stamped(old(cells)@, w, h, cc, offs, 0));
    assert(pixels@ =~= repainted(old(pixels)@, old(cells)@, cells@));
    while n < offsets.len()
        invariant
            grid_ok(cells@, pixels@, w, h),
            w == width,
            h == height,
            cc == (c.0 as int, c.1 as int),
            offs == pairs(offsets@),
            0 <= c.0 < width,
            0 <= c.1 < height,
            n <= offsets@.len(),
            cells@.len() == old(cells)@.len(),
            pixels@.len() == old(pixels)@.len(),
            cells@ == stamped(old(cells)@, w, h, cc, offs, n as int),
            pixels@ == repainted(old(pixels)@, old(cells)@, cells@),
            alive_matches(alive@, cells@),
        decreases offsets@.len() - n,
    {
        let offset: (i32, i32) = offsets[n];
        let dx: i32 = wrap_coord(offset.0, width);
        let dy: i32 = wrap_coord(offset.1, height);
        let i: usize = coord_index(width, height, c.0 + dx, c.1 + dy);
        let ghost cells_before = cells@;
        proof {
            lemma_wrap_add(offset.0 as int, cc.0, w);
            lemma_wrap_add(offset.1 as int, cc.1, h);
            assert(i == stamp_target(w, h, cc, offs, n as int));
        }
        revive(cells, pixels, alive, i);
        proof {
            assert forall|j: int| 0 <= j < cells@.len() implies stamp_hits(w, h, cc, offs, n + 1, j)
                == (stamp_hits(w, h, cc, offs, n as int, j) || j == i) by {
                if stamp_hits(w, h, cc, offs, n + 1, j) {
                    let m = choose|m: int|
                        0 <= m < n + 1 && #[trigger] stamp_target(w, h, cc, offs, m) == j;
                    if m < n {
                        assert(stamp_hits(w, h, cc, offs, n as int, j));
                    }
                }
                if stamp_hits(w, h, cc, offs, n as int, j) {
                    let m = choose|m: int|
                        0 <= m < n && #[trigger] stamp_target(w, h, cc, offs, m) == j;
                    assert(0 <= m < n + 1 && stamp_target(w, h, cc, offs, m) == j);
                }
                if j == i {
                    assert(stamp_target(w, h, cc, offs, n as int) == j);
                }
            }
            assert(cells@ =~= stamped(old(cells)@, w, h, cc, offs, n + 1));
            assert(pixels@ =~= repainted(old(pixels)@, old(cells)@, cells@));
        }
        n += 1;
    }
}

/// Reads the rectangle of `size` whose first cell is `c`: one bit for each
/// cell, row by row, set where the cell is alive.
pub(crate) fn read_bits(cells: &Vec<CellState>, width: i32, height: i32, c: (i32, i32), size: (i32, i32)) -> (bits:
    Vec<bool>)
    requires
        0 < width <= MAX_SIDE,
        0 < height <= MAX_SIDE,
        width * height <= MAX_PIXELS,
        cells@.len() == width * height,
        0 <= c.0 < width,
        0 <= c.1 < height,
        0 <= size.0 <= width,
        0 <= size.1 <= height,
    ensures
        bits@ == region_bits(
            cells@,
            width as int,
            height as int,
            (c.0 as int, c.1 as int),
            (size.0 as int, size.1 as int),
        ),
{
    let ghost w = width as int;
    let ghost h = height as int;
    let ghost cc = (c.0 as int, c.1 as int);
    let ghost across = size.0 as int;
    let mut bits: Vec<bool> = Vec::new();
    let mut dy: i32 = 0;
    while dy < size.1
        invariant
            0 < width <= MAX_SIDE,
            0 < height <= MAX_SIDE,
            width * height <= MAX_PIXELS,
            cells@.len() == width * height,
            w == width,
            h == height,
            cc == (c.0 as int, c.1 as int),
            across == size.0,
            0 <= c.0 < width,
            0 <= c.1 < height,
            0 <= size.0 <= width,
            0 <= size.1 <= height,
            0 <= dy <= size.1,
            bits@.len() == dy * across,
            forall|t: int|
                0 <= t < bits@.len() ==> (#[trigger] bits@[t]) == (cells@[clip_target(
                    w,
                    h,
                    cc,
                    across,
                    t,
                )] == CellState::Alive),
        decreases size.1 - dy,
    {
        let mut dx: i32 = 0;
        while dx < size.0
            invariant
                0 < width <= MAX_SIDE,
                0 < height <= MAX_SIDE,
                width * height <= MAX_PIXELS,
                cells@.len() == width * height,
                w == width,
                h == height,
                cc == (c.0 as int, c.1 as int),
                across == size.0,
                0 <= c.0 < width,
                0 <= c.1 < height,
                0 <= size.0 <= width,
                0 <= size.1 <= height,
                0 <= dy < size.1,
                0 <= dx <= size.0,
                bits@.len() == dy * across + dx,
                forall|t: int|
                    0 <= t < bits@.len() ==> (#[trigger] bits@[t]) == (cells@[clip_target(
                        w,
                        h,
                        cc,
                        across,
                        t,
                    )] == CellState::Alive),
            decreases size.0 - dx,
        {
            let i: usize = coord_index(width, height, c.0 + dx, c.1 + dy);
            let ghost before = bits@;
            proof {
                lemma_index_split(across, dy as int, dx as int);
                assert(i == clip_target(w, h, cc, across, dy * across + dx));
            }
            bits.push(cells[i] == CellState::Alive);
            proof {
                assert forall|t: int| 0 <= t < bits@.len() implies (#[trigger] bits@[t]) == (
                cells@[clip_target(w, h, cc, across, t)] == CellState::Alive) by {
                    if t < before.len() {
                        assert(bits@[t] == before[t]);
                    }
                }
            }
            dx += 1;
        }
        proof {
            assert((dy + 1) * across == dy * across + across) by (nonlinear_arith);
        }
        dy += 1;
    }
    proof {
        assert(dy * across == across * size.1) by (nonlinear_arith)
            requires
                dy == size.1,
        ;
        assert(bits@ =~= region_bits(cells@, w, h, cc, (size.0 as int, size.1 as int)));
    }
    bits
}

/// The column after `x`, edges joined.
fn next_coord(x: i32, n: i32) -> (r: i32)
    requires
        0 <= x < n,
    ensures
        r == (if x + 1 == n {
            0
        } else {
            x + 1
        }),
{
    if x + 1 == n {
        0
    } else {
        x + 1
    }
}

/// Pastes `symbols` into the rectangle of `size` whose first cell is `pos`:
/// one bit for each cell, row by row, six bits from each symbol, the text
/// read round and round. A set bit sets its cell alive. Stops at the first
/// symbol that is not of the alphabet, and says whether it got through.
pub(crate) fn paste_clip(
    cells: &mut Vec<CellState>,
    pixels: &mut Vec<Rgb>,
    alive: &mut Vec<usize>,
    width: i32,
    height: i32,
    symbols: &[u8],
    pos: (i32, i32),
    size: (i32, i32),
) -> (complete: bool)
    requires
        grid_ok(old(cells)@, old(pixels)@, width as int, height as int),
        alive_matches(old(alive)@, old(cells)@),
        symbols@.len() > 0,
        size.0 > 0,
        size.1 > 0,
    ensures
        final(cells)@ == clip_pasted(
            old(cells)@,
            symbols@,
            width as int,
            height as int,
            (pos.0 as int, pos.1 as int),
            size.0 as int,
            readable_cells(symbols@, size.0 * size.1),
        ),
        complete <==> readable_cells(symbols@, size.0 * size.1) == size.0 * size.1,
        final(pixels)@ == repainted(old(pixels)@, old(cells)@, final(cells)@),
        alive_matches(final(alive)@, final(cells)@),
{
    let ghost w = width as int;
    let ghost h = height as int;
    let ghost cc = (pos.0 as int, pos.1 as int);
    let ghost across = size.0 as int;
    let ghost area = size.0 * size.1;
    let ghost len = symbols@.len() as int;
    let x0: i32 = wrap_coord(pos.0, width);
    let y0: i32 = wrap_coord(pos.1, height);
    let mut xw: i32 = x0;
    let mut yw: i32 = y0;
    let mut dx: i32 = 0;
    let mut dy: i32 = 0;
    let mut t: u64 = 0;
    let mut next: usize = 0;
    let mut value: u8 = 0;
    let mut mask: u8 = 0;
    proof {
        assert(cells@ =~= clip_pasted(old(cells)@, symbols@, w, h, cc, across, 0));
        assert(pixels@ =~= repainted(old(pixels)@, old(cells)@, cells@));
        assert(0int % len == 0) by {
            vstd::arithmetic::div_mod::lemma_small_mod(0, len as nat);
        }
        assert(area >= 1 && area <= 0x7fff_ffff * 0x7fff_ffff) by (nonlinear_arith)
            requires
                area == size.0 * size.1,
                1 <= size.0 <= 0x7fff_ffff,
                1 <= size.1 <= 0x7fff_ffff,
        ;
    }
    while dy < size.1
        invariant
            grid_ok(cells@, pixels@, w, h),
            w == width,
            h == height,
            cc == (pos.0 as int, pos.1 as int),
            across == size.0,
            area == size.0 * size.1,
            area <= 0x7fff_ffff * 0x7fff_ffff,
            len == symbols@.len(),
            len > 0,
            size.0 > 0,
            size.1 > 0,
            x0 == wrap(cc.0, w),
            y0 == wrap(cc.1, h),
            0 <= dx < size.0,
            0 <= dy <= size.1,
            dy == size.1 ==> dx == 0,
            t == dy * across + dx,
            t <= area,
            xw == wrap(cc.0 + dx, w),
            yw == wrap(cc.1 + dy, h),
            next < len,
            next == ((t + 5) / 6) % len,
            t % 6 == 0 ==> mask == 0,
            t % 6 != 0 ==> mask == weight(t as int % 6) && value_of(symbol_for_cell(symbols@, t as int))
                == Some(value as int),
            value < 64,
            forall|u: int|
                0 <= u < 6 * ((t + 5) / 6) ==> (#[trigger] stream_bit(symbols@, u)) is Some,
            cells@.len() == old(cells)@.len(),
            pixels@.len() == old(pixels)@.len(),
            cells@ == clip_pasted(old(cells)@, symbols@, w, h, cc, across, t as int),
            pixels@ == repainted(old(pixels)@, old(cells)@, cells@),
            alive_matches(alive@, cells@),
        decreases area - t,
    {
        proof {
            assert(t < area) by (nonlinear_arith)
                requires
                    t == dy * across + dx,
                    0 <= dx < across,
                    0 <= dy < size.1,
                    area == across * size.1,
            ;
        }
        if mask == 0 {
            let symbol: u8 = symbols[next];
            match symbol_value(symbol) {
                Some(v) => {
                    value = v;
                    mask = 32;
                    next = if next + 1 == symbols.len() {
                        0
                    } else {
                        next + 1
                    };
                    proof {
                        let g = t as int / 6;
                        assert((t + 5) / 6 == g);
                        assert(symbol_for_cell(symbols@, t as int) == symbol);
                        lemma_wrap_step(g, len);
                        assert(next == (g + 1) % len);
                        assert forall|u: int| 0 <= u < 6 * (g + 1) implies (#[trigger] stream_bit(
                            symbols@,
                            u,
                        )) is Some by {
                            if u >= 6 * g {
                                assert(u / 6 == g);
                                assert(symbol_for_cell(symbols@, u) == symbol);
                            }
                        }
                    }
                },
                None => {
                    proof {
                        assert((t + 5) / 6 == t as int / 6);
                        assert(symbol_for_cell(symbols@, t as int) == symbol);
                        lemma_readable_stop(symbols@, t as int, area);
                    }
                    return false;
                },
            }
        }
        let ghost g = t as int / 6;
        let ghost b = t as int % 6;
        assert(mask == weight(b));
        assert(value_of(symbol_for_cell(symbols@, t as int)) == Some(value as int));
        assert(stream_bit(symbols@, t as int) == Some(bit_of(value as int, b)));
        assert((t + 6) / 6 == g + 1);
        assert((t + 5) / 6 == (if b == 0 {
            g
        } else {
            g + 1
        }));
        let set: bool = (value / mask) % 2 == 1;
        let ghost cells_before = cells@;
        proof {
            lemma_index_split(across, dy as int, dx as int);
            lemma_index_range(w, h, cc.0 + dx, cc.1 + dy);
            assert(yw * w + xw == clip_target(w, h, cc, across, t as int));
        }
        let i: usize = yw as usize * width as usize + xw as usize;
        if set {
            revive(cells, pixels, alive, i);
        }
        proof {
            assert forall|j: int| 0 <= j < cells@.len() implies clip_hits(
                symbols@,
                w,
                h,
                cc,
                across,
                t + 1,
                j,
            ) == (clip_hits(symbols@, w, h, cc, across, t as int, j) || (set && j == i)) by {
                if clip_hits(symbols@, w, h, cc, across, t + 1, j) {
                    let u = choose|u: int|
                        0 <= u < t + 1 && stream_bit(symbols@, u) == Some(true)
                            && #[trigger] clip_target(w, h, cc, across, u) == j;
                    if u < t {
                        assert(clip_hits(symbols@, w, h, cc, across, t as int, j));
                    }
                }
                if clip_hits(symbols@, w, h, cc, across, t as int, j) {
                    let u = choose|u: int|
                        0 <= u < t && stream_bit(symbols@, u) == Some(true)
                            && #[trigger] clip_target(w, h, cc, across, u) == j;
                    assert(0 <= u < t + 1 && clip_target(w, h, cc, across, u) == j);
                }
                if set && j == i {
                    assert(clip_target(w, h, cc, across, t as int) == j);
                }
            }
            assert(cells@ =~= clip_pasted(old(cells)@, symbols@, w, h, cc, across, t + 1));
            assert(pixels@ =~= repainted(old(pixels)@, old(cells)@, cells@));
            lemma_wrap_step(cc.0 + dx, w);
            lemma_wrap_step(cc.1 + dy, h);
            assert((dy + 1) * across == dy * across + across) by (nonlinear_arith);
            if t as int % 6 != 5 {
                assert(symbol_for_cell(symbols@, t + 1) == symbol_for_cell(symbols@, t as int));
            }
        }
        mask = mask / 2;
        t = t + 1;
        dx = dx + 1;
        xw = next_coord(xw, width);
        if dx == size.0 {
            dx = 0;
            xw = x0;
            dy = dy + 1;
            yw = next_coord(yw, height);
        }
    }
    proof {
        assert(t == area) by (nonlinear_arith)
            requires
                t == dy * across + dx,
                dx == 0,
                dy == size.1,
                area == across * size.1,
        ;
        lemma_readable_all(symbols@, area);
    }
    true
}

/// Fills the grid at random from `seed`: a cell is alive where the word
/// drawn for it is odd. Lists the live cells and paints every cell.
pub(crate) fn random_fill(
    cells: &mut Vec<CellState>,
    pixels: &mut Vec<Rgb>,
    alive: &mut Vec<usize>,
    seed: u64,
)
    requires
        old(pixels)@.len() >= old(cells)@.len(),
    ensures
        final(cells)@ == random_cells(seed, old(cells)@.len()),
        final(pixels)@ == all_painted(old(pixels)@, final(cells)@),
        alive_matches(final(alive)@, final(cells)@),
{
    alive.clear();
    let mut rng = seed_rng(seed);
    let ghost n = cells@.len();
    let mut i: usize = 0;
    while i < cells.len()
        invariant
            n == cells@.len(),
            pixels@.len() == old(pixels)@.len(),
            pixels@.len() >= n,
            i <= n,
            rng == rng_after(seed, i as nat),
            forall|j: int| 0 <= j < i ==> (#[trigger] cells@[j]) == random_cells(seed, n)[j],
            forall|j: int|
                0 <= j < pixels@.len() ==> (#[trigger] pixels@[j]) == (if j < i {
                    color_of(cells@[j])
                } else {
                    old(pixels)@[j]
                }),
            forall|p: int|
                0 <= p < alive@.len() ==> (#[trigger] alive@[p]) < i && cells@[alive@[p] as int]
                    == CellState::Alive,
            forall|p: int, q: int| 0 <= p < q < alive@.len() ==> alive@[p] < alive@[q],
            forall|j: int|
                0 <= j < i && (#[trigger] cells@[j]) == CellState::Alive ==> alive@.contains(
                    j as usize,
                ),
        decreases n - i,
    {
        let word: u64 = next_word(&mut rng);
        let ghost listed = alive@;
        assert(word == seeded_word(seed, i as nat));
        assert(rng == rng_after(seed, (i + 1) as nat));
        let state: CellState = cell_of_word(word);
        cells[i] = state;
        pixels[i] = cell_color(state);
        if state == CellState::Alive {
            alive.push(i);
        }
        proof {
            assert forall|j: int|
                0 <= j < i + 1 && (#[trigger] cells@[j])
                    == CellState::Alive implies alive@.contains(j as usize) by {
                if j == i {
                    assert(alive@[listed.len() as int] == j as usize);
                } else {
                    assert(listed.contains(j as usize));
                    let p = choose|p: int| 0 <= p < listed.len() && listed[p] == j as usize;
                    assert(alive@[p] == j as usize);
                }
            }
            assert forall|p: int| 0 <= p < alive@.len() implies (#[trigger] alive@[p]) < i + 1
                && cells@[alive@[p] as int] == CellState::Alive by {
                if p < listed.len() {
                    assert(alive@[p] == listed[p]);
                }
            }
        }
        i += 1;
    }
    assert(cells@ =~= random_cells(seed, n));
    assert(pixels@ =~= all_painted(old(pixels)@, cells@));
}

/// Pastes `symbols` as tiles of `size`, `across` to a row and `down` rows
/// of them, the first at `c`. Stops in the first tile at a symbol that is
/// not of the alphabet, and says whether it got through.
pub(crate) fn paste_tiles(
    cells: &mut Vec<CellState>,
    pixels: &mut Vec<Rgb>,
    alive: &mut Vec<usize>,
    width: i32,
    height: i32,
    symbols: &[u8],
    c: (i32, i32),
    size: (i32, i32),
    across: i32,
    down: i32,
) -> (complete: bool)
    requires
        grid_ok(old(cells)@, old(pixels)@, width as int, height as int),
        alive_matches(old(alive)@, old(cells)@),
        symbols@.len() > 0,
        0 <= c.0 < width,
        0 <= c.1 < height,
        size.0 > 0,
        size.1 > 0,
        0 <= across,
        0 <= down,
        across * size.0 <= width,
        down * size.1 <= height,
    ensures
        complete <==> across * down <= 0 || readable_cells(symbols@, size.0 * size.1) == size.0
            * size.1,
        complete ==> final(cells)@ == tiles_pasted(
            old(cells)@,
            symbols@,
            width as int,
            height as int,
            (c.0 as int, c.1 as int),
            (size.0 as int, size.1 as int),
            across as int,
            across * down,
        ),
        !complete ==> final(cells)@ == clip_pasted(
            old(cells)@,
            symbols@,
            width as int,
            height as int,
            (c.0 as int, c.1 as int),
            size.0 as int,
            readable_cells(symbols@, size.0 * size.1),
        ),
        final(pixels)@ == repainted(old(pixels)@, old(cells)@, final(cells)@),
        final(cells)@.len() == old(cells)@.len(),
        alive_matches(final(alive)@, final(cells)@),
{
    let ghost w = width as int;
    let ghost h = height as int;
    let ghost cc = (c.0 as int, c.1 as int);
    let ghost ss = (size.0 as int, size.1 as int);
    let ghost area = size.0 * size.1;
    let ghost good = readable_cells(symbols@, area);
    let ghost cells0 = cells@;
    let ghost pixels0 = pixels@;
    let mut a: i32 = 0;
    let mut b: i32 = 0;
    let mut tx: i32 = c.0;
    let mut ty: i32 = c.1;
    proof {
        assert(pixels@ =~= repainted(pixels0, cells0, cells@));
        assert(across * down >= 0) by (nonlinear_arith)
            requires
                across >= 0,
                down >= 0,
        ;
        assert(across == 0 ==> across * down == 0) by (nonlinear_arith);
        assert(0 * across == 0) by (nonlinear_arith);
        assert(0 * size.0 == 0 && 0 * size.1 == 0) by (nonlinear_arith);
    }
    if across == 0 {
        return true;
    }
    while a < down
        invariant
            grid_ok(cells@, pixels@, w, h),
            w == width,
            h == height,
            cc == (c.0 as int, c.1 as int),
            ss == (size.0 as int, size.1 as int),
            area == size.0 * size.1,
            good == readable_cells(symbols@, area),
            symbols@.len() > 0,
            0 <= c.0 < width,
            0 <= c.1 < height,
            size.0 > 0,
            size.1 > 0,
            0 < across,
            0 <= down,
            across * size.0 <= width,
            down * size.1 <= height,
            0 <= a <= down,
            0 <= b < across,
            a == down ==> b == 0,
            tx == c.0 + b * size.0,
            a < down ==> ty == c.1 + a * size.1,
            cells0 == old(cells)@,
            pixels0 == old(pixels)@,
            a * across + b > 0 ==> good == area,
            0 <= a * across + b <= across * down,
            cells@.len() == cells0.len(),
            pixels@.len() == pixels0.len(),
            cells@ == tiles_pasted(cells0, symbols@, w, h, cc, ss, across as int, a * across + b),
            forall|j: int|
                0 <= j < cells@.len() ==> (#[trigger] cells@[j]) == cells0[j] || (cells@[j]
                    == CellState::Alive && cells0[j] != CellState::Alive),
            pixels@ == repainted(pixels0, cells0, cells@),
            alive_matches(alive@, cells@),
        decreases across * down - (a * across + b),
    {
        let ghost k = a * across + b;
        let ghost cells_before = cells@;
        proof {
            lemma_index_split(across as int, a as int, b as int);
            assert(tile_origin(cc, ss, across as int, k) == (tx as int, ty as int));
            assert(k < across * down) by (nonlinear_arith)
                requires
                    k == a * across + b,
                    0 <= b < across,
                    0 <= a < down,
            ;
            assert(0 <= b * size.0 && b * size.0 + size.0 <= across * size.0) by (nonlinear_arith)
                requires
                    0 <= b,
                    b + 1 <= across,
                    size.0 > 0,
            ;
            assert(0 <= a * size.1 && a * size.1 + size.1 <= down * size.1) by (nonlinear_arith)
                requires
                    0 <= a,
                    a + 1 <= down,
                    size.1 > 0,
            ;
        }
        let complete: bool = paste_clip(cells, pixels, alive, width, height, symbols, (tx, ty), size);
        proof {
            assert forall|j: int| 0 <= j < cells@.len() implies (#[trigger] cells@[j]) == cells0[j]
                || (cells@[j] == CellState::Alive && cells0[j] != CellState::Alive) by {
                assert(cells_before[j] == cells0[j] || (cells_before[j] == CellState::Alive
                    && cells0[j] != CellState::Alive));
            }
            assert(pixels@ =~= repainted(pixels0, cells0, cells@));
        }
        if !complete {
            assert(k == 0);
            assert(a == 0 && b == 0) by (nonlinear_arith)
                requires
                    a * across + b == 0,
                    0 <= a,
                    0 <= b,
                    0 < across,
            ;
            assert(tx == c.0 && ty == c.1) by (nonlinear_arith)
                requires
                    a == 0,
                    b == 0,
                    tx == c.0 + b * size.0,
                    ty == c.1 + a * size.1,
            ;
            assert(cells_before == cells0);
            return false;
        }
        assert(cells@ == tiles_pasted(cells0, symbols@, w, h, cc, ss, across as int, k + 1));
        b = b + 1;
        tx = tx + size.0;
        if b == across {
            b = 0;
            tx = c.0;
            a = a + 1;
            proof {
                assert(a * across == (a - 1) * across + across) by (nonlinear_arith);
                assert(0 * size.0 == 0) by (nonlinear_arith);
                assert(a * size.1 == (a - 1) * size.1 + size.1) by (nonlinear_arith);
            }
            if a < down {
                ty = ty + size.1;
            } else {
                ty = c.1;
                proof {
                    assert(a * across == across * down) by (nonlinear_arith)
                        requires
                            a == down,
                    ;
                }
            }
        } else {
            proof {
                assert(b * size.0 == (b - 1) * size.0 + size.0) by (nonlinear_arith);
            }
        }
    }
    proof {
        assert(a * across == across * down) by (nonlinear_arith)
            requires
                a == down,
        ;
    }
    true
}

} // verus!
