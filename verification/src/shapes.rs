//! Three well-known patterns and what the rules make of them on a torus:
//! the block, which stays as it is, the blinker, which turns and turns back,
//! and the glider, which moves.

use vstd::prelude::*;
use crate::cell::CellState;
use crate::life::{generations, live, live_neighbors, next_generation, one_if};
use crate::patterns::{marks, placed_offsets, span, GLIDER};
use crate::region::lemma_rect_cell;
use crate::state::{stamp_hits, stamp_target, stamped};
use crate::neighbors::{neighbor_of, offset_x, offset_y, lemma_neighbor_range};
use crate::state::{columns_on, in_rect, rows_on};
use crate::torus::{
    wrap,
    lemma_index_split,
    lemma_wrap_add,
    lemma_wrap_range,
    lemma_wrap_small,
    lemma_wrap_step,
};

verus! {

/// A grid that is dead but for a rectangle of live cells: the rectangle of
/// `size` whose first cell is `c`, edges joined.
pub open spec fn lone_rect(width: int, height: int, c: (int, int), size: (int, int)) -> Seq<
    CellState,
> {
    Seq::new(
        (width * height) as nat,
        |j: int|
            if in_rect(width, height, c, size, j) {
                CellState::Alive
            } else {
                CellState::Dead
            },
    )
}

/// A 2×2 block of live cells on an empty grid, its first cell at `c`.
pub open spec fn block(width: int, height: int, c: (int, int)) -> Seq<CellState> {
    lone_rect(width, height, c, (2, 2))
}

/// Three live cells in a row on an empty grid, the first at `c`.
pub open spec fn blinker_flat(width: int, height: int, c: (int, int)) -> Seq<CellState> {
    lone_rect(width, height, c, (3, 1))
}

/// Three live cells in a column on an empty grid, the first at `c`.
pub open spec fn blinker_upright(width: int, height: int, c: (int, int)) -> Seq<CellState> {
    lone_rect(width, height, c, (1, 3))
}

/// 1 if the cell `dx` columns and `dy` rows on from one that lies `u`
/// columns and `v` rows into a rectangle of `size` lies in it too, else 0.
pub open spec fn inside(
    width: int,
    height: int,
    size: (int, int),
    u: int,
    v: int,
    dx: int,
    dy: int,
) -> int {
    one_if(wrap(u + dx, width) < size.0 && wrap(v + dy, height) < size.1)
}

/// A neighbour of a cell is alive on a grid with one rectangle of live
/// cells if it lies in the rectangle: which is a matter of how far into the
/// rectangle the cell lies, and of the neighbour's offset.
proof fn lemma_neighbor_in_rect(
    width: int,
    height: int,
    c: (int, int),
    size: (int, int),
    j: int,
    k: int,
)
    requires
        width > 0,
        height > 0,
        0 <= j < width * height,
        0 <= k < 8,
    ensures
        live(lone_rect(width, height, c, size), neighbor_of(width, height, j, k)) == inside(
            width,
            height,
            size,
            columns_on(width, c.0, j),
            rows_on(width, height, c.1, j),
            offset_x(k),
            offset_y(k),
        ),
{
    let n = neighbor_of(width, height, j, k);
    let x = j % width;
    let y = j / width;
    let dx = offset_x(k);
    let dy = offset_y(k);
    lemma_neighbor_range(width, height, j, k);
    lemma_wrap_range(x + dx, width);
    lemma_wrap_range(y + dy, height);
    lemma_index_split(width, wrap(y + dy, height), wrap(x + dx, width));
    assert(n % width == wrap(x + dx, width));
    assert(n / width == wrap(y + dy, height));
    lemma_wrap_add(x + dx, -c.0, width);
    lemma_wrap_add(y + dy, -c.1, height);
    lemma_wrap_add(x - c.0, dx, width);
    lemma_wrap_add(y - c.1, dy, height);
    assert(columns_on(width, c.0, n) == wrap(columns_on(width, c.0, j) + dx, width));
    assert(rows_on(width, height, c.1, n) == wrap(rows_on(width, height, c.1, j) + dy, height));
}

/// Number of live neighbours of a cell on a grid with one rectangle of live
/// cells.
proof fn lemma_count_in_rect(width: int, height: int, c: (int, int), size: (int, int), j: int)
    requires
        width > 0,
        height > 0,
        0 <= j < width * height,
    ensures
        ({
            let u = columns_on(width, c.0, j);
            let v = rows_on(width, height, c.1, j);
            live_neighbors(lone_rect(width, height, c, size), width, height, j) == inside(
                width,
                height,
                size,
                u,
                v,
                -1,
                -1,
            ) + inside(width, height, size, u, v, 0, -1) + inside(width, height, size, u, v, 1, -1)
                + inside(width, height, size, u, v, -1, 0) + inside(
                width,
                height,
                size,
                u,
                v,
                1,
                0,
            ) + inside(width, height, size, u, v, -1, 1) + inside(width, height, size, u, v, 0, 1)
                + inside(width, height, size, u, v, 1, 1)
        }),
        0 <= columns_on(width, c.0, j) < width,
        0 <= rows_on(width, height, c.1, j) < height,
{
    lemma_neighbor_in_rect(width, height, c, size, j, 0);
    lemma_neighbor_in_rect(width, height, c, size, j, 1);
    lemma_neighbor_in_rect(width, height, c, size, j, 2);
    lemma_neighbor_in_rect(width, height, c, size, j, 3);
    lemma_neighbor_in_rect(width, height, c, size, j, 4);
    lemma_neighbor_in_rect(width, height, c, size, j, 5);
    lemma_neighbor_in_rect(width, height, c, size, j, 6);
    lemma_neighbor_in_rect(width, height, c, size, j, 7);
    lemma_wrap_range(j % width - c.0, width);
    lemma_wrap_range(j / width - c.1, height);
}

/// Still life: on a grid of at least three columns and three rows, a 2×2
/// block of live cells on an otherwise empty grid is the same after one
/// generation.
pub proof fn lemma_block_step(width: int, height: int, c: (int, int))
    requires
        width >= 3,
        height >= 3,
    ensures
        next_generation(block(width, height, c), width, height) == block(width, height, c),
{
    let grid = block(width, height, c);
    let next = next_generation(grid, width, height);
    assert forall|j: int| 0 <= j < width * height implies next[j] == grid[j] by {
        lemma_count_in_rect(width, height, c, (2, 2), j);
        let u = columns_on(width, c.0, j);
        let v = rows_on(width, height, c.1, j);
        lemma_wrap_step(u, width);
        lemma_wrap_step(v, height);
        lemma_wrap_small(u, width);
        lemma_wrap_small(v, height);
    }
    assert(next =~= grid);
}

/// Still life: a 2×2 block of live cells on an otherwise empty grid is the
/// same after any number of generations.
pub proof fn lemma_block_still(width: int, height: int, c: (int, int), n: nat)
    requires
        width >= 3,
        height >= 3,
    ensures
        generations(block(width, height, c), width, height, n) == block(width, height, c),
    decreases n,
{
    if n > 0 {
        lemma_block_still(width, height, c, (n - 1) as nat);
        lemma_block_step(width, height, c);
    }
}

/// Oscillator: on a grid of at least four columns and four rows, three
/// live cells in a row on an otherwise empty grid stand upright after one
/// generation, through the middle cell of the row.
pub proof fn lemma_blinker_turns(width: int, height: int, c: (int, int))
    requires
        width >= 4,
        height >= 4,
    ensures
        next_generation(blinker_flat(width, height, c), width, height) == blinker_upright(
            width,
            height,
            (c.0 + 1, c.1 - 1),
        ),
{
    let grid = blinker_flat(width, height, c);
    let turned = blinker_upright(width, height, (c.0 + 1, c.1 - 1));
    let next = next_generation(grid, width, height);
    assert forall|j: int| 0 <= j < width * height implies next[j] == turned[j] by {
        lemma_count_in_rect(width, height, c, (3, 1), j);
        let u = columns_on(width, c.0, j);
        let v = rows_on(width, height, c.1, j);
        lemma_wrap_step(u, width);
        lemma_wrap_step(v, height);
        lemma_wrap_small(u, width);
        lemma_wrap_small(v, height);
        lemma_wrap_add(j % width - c.0, -1, width);
        lemma_wrap_add(j / width - c.1, 1, height);
        assert(columns_on(width, c.0 + 1, j) == wrap(u - 1, width));
        assert(rows_on(width, height, c.1 - 1, j) == wrap(v + 1, height));
    }
    assert(next =~= turned);
}

/// Oscillator: three live cells in a column lie flat after one generation,
/// through the middle cell of the column.
pub proof fn lemma_blinker_turns_back(width: int, height: int, c: (int, int))
    requires
        width >= 4,
        height >= 4,
    ensures
        next_generation(blinker_upright(width, height, c), width, height) == blinker_flat(
            width,
            height,
            (c.0 - 1, c.1 + 1),
        ),
{
    let grid = blinker_upright(width, height, c);
    let turned = blinker_flat(width, height, (c.0 - 1, c.1 + 1));
    let next = next_generation(grid, width, height);
    assert forall|j: int| 0 <= j < width * height implies next[j] == turned[j] by {
        lemma_count_in_rect(width, height, c, (1, 3), j);
        let u = columns_on(width, c.0, j);
        let v = rows_on(width, height, c.1, j);
        lemma_wrap_step(u, width);
        lemma_wrap_step(v, height);
        lemma_wrap_small(u, width);
        lemma_wrap_small(v, height);
        lemma_wrap_add(j % width - c.0, 1, width);
        lemma_wrap_add(j / width - c.1, -1, height);
        assert(columns_on(width, c.0 - 1, j) == wrap(u + 1, width));
        assert(rows_on(width, height, c.1 + 1, j) == wrap(v - 1, height));
    }
    assert(next =~= turned);
}

/// Oscillator: three live cells in a row on an otherwise empty grid are
/// back after exactly two generations.
pub proof fn lemma_blinker_period(width: int, height: int, c: (int, int))
    requires
        width >= 4,
        height >= 4,
    ensures
        generations(blinker_flat(width, height, c), width, height, 1) == blinker_upright(
            width,
            height,
            (c.0 + 1, c.1 - 1),
        ),
        generations(blinker_flat(width, height, c), width, height, 2) == blinker_flat(
            width,
            height,
            c,
        ),
        generations(blinker_flat(width, height, c), width, height, 1) != blinker_flat(
            width,
            height,
            c,
        ),
{
    let flat = blinker_flat(width, height, c);
    reveal_with_fuel(generations, 3);
    lemma_blinker_turns(width, height, c);
    lemma_blinker_turns_back(width, height, (c.0 + 1, c.1 - 1));
    assert(generations(flat, width, height, 0) == flat);
    // the first cell of the row is alive before and dead after one generation
    let i = crate::torus::cell_index(width, height, c.0, c.1);
    crate::torus::lemma_index_range(width, height, c.0, c.1);
    lemma_wrap_range(c.0, width);
    lemma_wrap_range(c.1, height);
    lemma_index_split(width, wrap(c.1, height), wrap(c.0, width));
    lemma_wrap_add(c.0, -c.0, width);
    lemma_wrap_add(c.1, -c.1, height);
    lemma_wrap_add(c.0, -c.0 - 1, width);
    lemma_wrap_small(0, width);
    lemma_wrap_small(0, height);
    lemma_wrap_step(0, width);
    assert(columns_on(width, c.0, i) == 0);
    assert(rows_on(width, height, c.1, i) == 0);
    assert(columns_on(width, c.0 + 1, i) == width - 1);
    assert(flat[i] == CellState::Alive);
    assert(blinker_upright(width, height, (c.0 + 1, c.1 - 1))[i] == CellState::Dead);
}

/// Whether the cell `u` columns and `v` rows into a window of six by six
/// cells is a cell of the glider, `phase` generations after it was placed
/// round the cell at (2, 2) of the window.
pub open spec fn glider_cell(phase: int, u: int, v: int) -> bool {
    if phase == 0 {
        (u == 2 && v == 1) || (u == 3 && v == 2) || (u == 1 && v == 3) || (u == 2 && v == 3) || (u
            == 3 && v == 3)
    } else if phase == 1 {
        (u == 1 && v == 2) || (u == 3 && v == 2) || (u == 2 && v == 3) || (u == 3 && v == 3) || (u
            == 2 && v == 4)
    } else if phase == 2 {
        (u == 3 && v == 2) || (u == 1 && v == 3) || (u == 3 && v == 3) || (u == 2 && v == 4) || (u
            == 3 && v == 4)
    } else if phase == 3 {
        (u == 2 && v == 2) || (u == 3 && v == 3) || (u == 4 && v == 3) || (u == 2 && v == 4) || (u
            == 3 && v == 4)
    } else {
        (u == 3 && v == 2) || (u == 4 && v == 3) || (u == 2 && v == 4) || (u == 3 && v == 4) || (u
            == 4 && v == 4)
    }
}

/// A grid that is dead but for a glider in the window whose first cell is
/// `o`, `phase` generations after it was placed.
pub open spec fn glider(width: int, height: int, o: (int, int), phase: int) -> Seq<CellState> {
    Seq::new(
        (width * height) as nat,
        |j: int|
            if glider_cell(phase, columns_on(width, o.0, j), rows_on(width, height, o.1, j)) {
                CellState::Alive
            } else {
                CellState::Dead
            },
    )
}

/// The offsets that the glider of the catalog marks, with no transform.
pub open spec fn glider_offsets() -> Seq<(int, int)> {
    placed_offsets(GLIDER@, 3, 3, false, false, false)
}

/// A grid that is dead but for the glider of the catalog, placed at `c`.
pub open spec fn placed_glider(width: int, height: int, c: (int, int)) -> Seq<CellState> {
    stamped(
        Seq::new((width * height) as nat, |j: int| CellState::Dead),
        width,
        height,
        c,
        glider_offsets(),
        glider_offsets().len() as int,
    )
}

proof fn lemma_neighbor_in_glider(
    width: int,
    height: int,
    o: (int, int),
    phase: int,
    j: int,
    k: int,
)
    requires
        width > 0,
        height > 0,
        0 <= j < width * height,
        0 <= k < 8,
    ensures
        live(glider(width, height, o, phase), neighbor_of(width, height, j, k)) == one_if(
            glider_cell(
                phase,
                wrap(columns_on(width, o.0, j) + offset_x(k), width),
                wrap(rows_on(width, height, o.1, j) + offset_y(k), height),
            ),
        ),
{
    let n = neighbor_of(width, height, j, k);
    let x = j % width;
    let y = j / width;
    let dx = offset_x(k);
    let dy = offset_y(k);
    lemma_neighbor_range(width, height, j, k);
    lemma_wrap_range(x + dx, width);
    lemma_wrap_range(y + dy, height);
    lemma_index_split(width, wrap(y + dy, height), wrap(x + dx, width));
    assert(n % width == wrap(x + dx, width));
    assert(n / width == wrap(y + dy, height));
    lemma_wrap_add(x + dx, -o.0, width);
    lemma_wrap_add(y + dy, -o.1, height);
    lemma_wrap_add(x - o.0, dx, width);
    lemma_wrap_add(y - o.1, dy, height);
    assert(columns_on(width, o.0, n) == wrap(columns_on(width, o.0, j) + dx, width));
    assert(rows_on(width, height, o.1, n) == wrap(rows_on(width, height, o.1, j) + dy, height));
}

/// One generation takes the glider from one phase to the next.
proof fn lemma_glider_step(width: int, height: int, o: (int, int), phase: int)
    requires
        width >= 6,
        height >= 6,
        0 <= phase < 4,
    ensures
        next_generation(glider(width, height, o, phase), width, height) == glider(
            width,
            height,
            o,
            phase + 1,
        ),
{
    let grid = glider(width, height, o, phase);
    let after = glider(width, height, o, phase + 1);
    let next = next_generation(grid, width, height);
    assert forall|j: int| 0 <= j < width * height implies next[j] == after[j] by {
        lemma_neighbor_in_glider(width, height, o, phase, j, 0);
        lemma_neighbor_in_glider(width, height, o, phase, j, 1);
        lemma_neighbor_in_glider(width, height, o, phase, j, 2);
        lemma_neighbor_in_glider(width, height, o, phase, j, 3);
        lemma_neighbor_in_glider(width, height, o, phase, j, 4);
        lemma_neighbor_in_glider(width, height, o, phase, j, 5);
        lemma_neighbor_in_glider(width, height, o, phase, j, 6);
        lemma_neighbor_in_glider(width, height, o, phase, j, 7);
        let u = columns_on(width, o.0, j);
        let v = rows_on(width, height, o.1, j);
        lemma_wrap_range(j % width - o.0, width);
        lemma_wrap_range(j / width - o.1, height);
        lemma_wrap_step(u, width);
        lemma_wrap_step(v, height);
        lemma_wrap_small(u, width);
        lemma_wrap_small(v, height);
    }
    assert(next =~= after);
}

/// The glider of the catalog marks five cells.
proof fn lemma_glider_offsets()
    ensures
        glider_offsets() == seq![(0int, -1int), (1int, 0int), (-1int, 1int), (0int, 1int), (1int, 1int)],
{
    let code = GLIDER@;
    assert(code.len() == 7);
    reveal_with_fuel(span, 8);
    reveal_with_fuel(marks, 8);
    assert(marks(code, 7) =~= seq![1int, 5int, 6int, 7int, 8int]);
    assert(glider_offsets() =~= seq![
        (0int, -1int),
        (1int, 0int),
        (-1int, 1int),
        (0int, 1int),
        (1int, 1int),
    ]);
}

/// The glider placed at `c` is the glider in its first phase in the window
/// that starts two cells before `c`, and the glider in its last phase in
/// the window that starts three cells before.
proof fn lemma_placed_glider(width: int, height: int, c: (int, int))
    requires
        width >= 6,
        height >= 6,
    ensures
        placed_glider(width, height, c) == glider(width, height, (c.0 - 2, c.1 - 2), 0),
        placed_glider(width, height, c) == glider(width, height, (c.0 - 3, c.1 - 3), 4),
{
    let placed = placed_glider(width, height, c);
    let offs = glider_offsets();
    lemma_glider_offsets();
    let near = (c.0 - 2, c.1 - 2);
    let far = (c.0 - 3, c.1 - 3);
    assert forall|j: int| 0 <= j < width * height implies placed[j] == glider(
        width,
        height,
        near,
        0,
    )[j] && placed[j] == glider(width, height, far, 4)[j] by {
        assert(stamp_target(width, height, c, offs, 0) == crate::torus::cell_index(
            width,
            height,
            near.0 + 2,
            near.1 + 1,
        ));
        assert(stamp_target(width, height, c, offs, 1) == crate::torus::cell_index(
            width,
            height,
            near.0 + 3,
            near.1 + 2,
        ));
        assert(stamp_target(width, height, c, offs, 2) == crate::torus::cell_index(
            width,
            height,
            near.0 + 1,
            near.1 + 3,
        ));
        assert(stamp_target(width, height, c, offs, 3) == crate::torus::cell_index(
            width,
            height,
            near.0 + 2,
            near.1 + 3,
        ));
        assert(stamp_target(width, height, c, offs, 4) == crate::torus::cell_index(
            width,
            height,
            near.0 + 3,
            near.1 + 3,
        ));
        lemma_rect_cell(width, height, near, 2, 1, j);
        lemma_rect_cell(width, height, near, 3, 2, j);
        lemma_rect_cell(width, height, near, 1, 3, j);
        lemma_rect_cell(width, height, near, 2, 3, j);
        lemma_rect_cell(width, height, near, 3, 3, j);
        lemma_rect_cell(width, height, far, 3, 2, j);
        lemma_rect_cell(width, height, far, 4, 3, j);
        lemma_rect_cell(width, height, far, 2, 4, j);
        lemma_rect_cell(width, height, far, 3, 4, j);
        lemma_rect_cell(width, height, far, 4, 4, j);
        if stamp_hits(width, height, c, offs, 5, j) {
            let m = choose|m: int|
                0 <= m < 5 && #[trigger] stamp_target(width, height, c, offs, m) == j;
            assert(m == 0 || m == 1 || m == 2 || m == 3 || m == 4);
        }
    }
    assert(placed =~= glider(width, height, near, 0));
    assert(placed =~= glider(width, height, far, 4));
}

/// Glider: on a grid of at least six columns and six rows, the glider of
/// the catalog, placed at `c` on an otherwise empty grid, is after exactly
/// four generations the same glider placed one cell to the right of and one
/// cell below `c`.
pub proof fn lemma_glider_moves(width: int, height: int, c: (int, int))
    requires
        width >= 6,
        height >= 6,
    ensures
        generations(placed_glider(width, height, c), width, height, 4) == placed_glider(
            width,
            height,
            (c.0 + 1, c.1 + 1),
        ),
{
    let o = (c.0 - 2, c.1 - 2);
    lemma_placed_glider(width, height, c);
    lemma_placed_glider(width, height, (c.0 + 1, c.1 + 1));
    lemma_glider_step(width, height, o, 0);
    lemma_glider_step(width, height, o, 1);
    lemma_glider_step(width, height, o, 2);
    lemma_glider_step(width, height, o, 3);
    reveal_with_fuel(generations, 5);
}

} // verus!
