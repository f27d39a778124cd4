//! The Moore neighbourhood on a torus, and the table that holds it for every
//! cell of a grid.

use vstd::prelude::*;
use crate::torus::{
    cell_index,
    wrap,
    lemma_index_of_cell,
    lemma_index_range,
    lemma_index_split,
    lemma_wrap_add,
    lemma_wrap_range,
    lemma_wrap_small,
    lemma_wrap_step,
};

verus! {

/// Column offset of neighbour slot `k`, for `0 <= k < 8`. The slots run row
/// by row over the 3×3 square round a cell, leaving the cell itself out.
pub open spec fn offset_x(k: int) -> int {
    if k == 0 || k == 3 || k == 5 {
        -1
    } else if k == 1 || k == 6 {
        0
    } else {
        1
    }
}

/// Row offset of neighbour slot `k`, for `0 <= k < 8`.
pub open spec fn offset_y(k: int) -> int {
    if k < 3 {
        -1
    } else if k < 5 {
        0
    } else {
        1
    }
}

/// Index of the cell in neighbour slot `k` of the cell at index `i`.
pub open spec fn neighbor_of(width: int, height: int, i: int, k: int) -> int {
    cell_index(width, height, i % width + offset_x(k), i / width + offset_y(k))
}

/// `table` lists, for each cell of a `width × height` grid, its eight
/// neighbours in slot order.
pub open spec fn is_neighbor_table(table: Seq<[usize; 8]>, width: int, height: int) -> bool {
    &&& table.len() == width * height
    &&& forall|i: int, k: int|
        0 <= i < table.len() && 0 <= k < 8 ==> (#[trigger] table[i]@[k]) == neighbor_of(
            width,
            height,
            i,
            k,
        )
}

/// Every neighbour is a cell of the grid.
pub proof fn lemma_neighbor_range(width: int, height: int, i: int, k: int)
    requires
        width > 0,
        height > 0,
    ensures
        0 <= neighbor_of(width, height, i, k) < width * height,
{
    lemma_index_range(width, height, i % width + offset_x(k), i / width + offset_y(k));
}

/// The neighbour relation is symmetric: from the neighbour in slot `k`, the
/// opposite slot leads back.
pub proof fn lemma_neighbor_symmetric(width: int, height: int, i: int, k: int)
    requires
        width > 0,
        height > 0,
        0 <= i < width * height,
        0 <= k < 8,
    ensures
        neighbor_of(width, height, neighbor_of(width, height, i, k), 7 - k) == i,
{
    lemma_index_of_cell(width, height, i);
    let x = i % width;
    let y = i / width;
    let dx = offset_x(k);
    let dy = offset_y(k);
    let j = neighbor_of(width, height, i, k);
    lemma_wrap_range(x + dx, width);
    lemma_wrap_range(y + dy, height);
    lemma_index_split(width, wrap(y + dy, height), wrap(x + dx, width));
    assert(j % width == wrap(x + dx, width));
    assert(j / width == wrap(y + dy, height));
    assert(offset_x(7 - k) == -dx);
    assert(offset_y(7 - k) == -dy);
    lemma_wrap_add(x + dx, -dx, width);
    lemma_wrap_add(y + dy, -dy, height);
}

/// Neighbour completeness: on a grid of at least three columns and three
/// rows the eight neighbours of a cell are eight different cells, none of
/// them the cell itself.
pub proof fn lemma_neighbors_distinct(width: int, height: int, i: int, k1: int, k2: int)
    requires
        width >= 3,
        height >= 3,
        0 <= i < width * height,
        0 <= k1 < 8,
        0 <= k2 < 8,
    ensures
        neighbor_of(width, height, i, k1) != i,
        k1 != k2 ==> neighbor_of(width, height, i, k1) != neighbor_of(width, height, i, k2),
{
    lemma_index_of_cell(width, height, i);
    let x = i % width;
    let y = i / width;
    lemma_wrap_small(x, width);
    lemma_wrap_small(y, height);
    lemma_wrap_step(x, width);
    lemma_wrap_step(y, height);
    let c1 = wrap(x + offset_x(k1), width);
    let r1 = wrap(y + offset_y(k1), height);
    let c2 = wrap(x + offset_x(k2), width);
    let r2 = wrap(y + offset_y(k2), height);
    lemma_wrap_range(x + offset_x(k1), width);
    lemma_wrap_range(y + offset_y(k1), height);
    lemma_wrap_range(x + offset_x(k2), width);
    lemma_wrap_range(y + offset_y(k2), height);
    lemma_index_split(width, r1, c1);
    lemma_index_split(width, r2, c2);
    lemma_index_split(width, y, x);
    assert(c1 != x || r1 != y);
    assert(k1 != k2 ==> c1 != c2 || r1 != r2);
}

/// The neighbours of a cell are the cells of the Moore neighbourhood: one
/// column and one row at most away, edges joined, and not the cell itself.
pub proof fn lemma_neighbors_are_moore(width: int, height: int, x: int, y: int, dx: int, dy: int)
    requires
        width > 0,
        height > 0,
        -1 <= dx <= 1,
        -1 <= dy <= 1,
        dx != 0 || dy != 0,
    ensures
        exists|k: int|
            0 <= k < 8 && #[trigger] neighbor_of(width, height, cell_index(width, height, x, y), k)
                == cell_index(width, height, x + dx, y + dy),
{
    let i = cell_index(width, height, x, y);
    lemma_wrap_range(x, width);
    lemma_wrap_range(y, height);
    lemma_index_split(width, wrap(y, height), wrap(x, width));
    lemma_wrap_add(x, dx, width);
    lemma_wrap_add(y, dy, height);
    let k: int = if dy == -1 {
        dx + 1
    } else if dy == 0 {
        if dx == -1 {
            3
        } else {
            4
        }
    } else {
        dx + 6
    };
    assert(offset_x(k) == dx && offset_y(k) == dy);
    assert(neighbor_of(width, height, i, k) == cell_index(width, height, x + dx, y + dy));
}

/// Builds the neighbour table of a `width × height` grid.
pub fn generate_neighbors(width: i32, height: i32) -> (table: Vec<[usize; 8]>)
    requires
        width > 0,
        height > 0,
        width * height <= usize::MAX,
    ensures
        is_neighbor_table(table@, width as int, height as int),
{
    let w: usize = width as usize;
    let h: usize = height as usize;
    let mut table: Vec<[usize; 8]> = Vec::new();
    let mut y: usize = 0;
    while y < h
        invariant
            w == width,
            h == height,
            w > 0,
            h > 0,
            w * h <= usize::MAX,
            y <= h,
            table@.len() == y * w,
            forall|i: int, k: int|
                0 <= i < table@.len() && 0 <= k < 8 ==> (#[trigger] table@[i]@[k]) == neighbor_of(
                    w as int,
                    h as int,
                    i,
                    k,
                ),
        decreases h - y,
    {
        proof {
            lemma_wrap_small(y as int, h as int);
            lemma_wrap_step(y as int, h as int);
            assert((y + 1) * w <= h * w) by (nonlinear_arith)
                requires
                    y + 1 <= h,
                    w > 0,
            ;
            assert((y + 1) * w == y * w + w) by (nonlinear_arith);
        }
        let row_above: usize = if y > 0 {
            y
        } else {
            h
        } - 1;
        let row_below: usize = if y + 1 < h {
            y + 1
        } else {
            0
        };
        proof {
            assert(row_above * w + w <= h * w) by (nonlinear_arith)
                requires
                    0 <= row_above < h,
                    w > 0,
            ;
            assert(row_below * w + w <= h * w) by (nonlinear_arith)
                requires
                    0 <= row_below < h,
                    w > 0,
            ;
            assert(y * w + w <= h * w) by (nonlinear_arith)
                requires
                    0 <= y < h,
                    w > 0,
            ;
        }
        let above: usize = row_above * w;
        let level: usize = y * w;
        let below: usize = row_below * w;
        assert(above == wrap(y - 1, h as int) * w);
        assert(below == wrap(y + 1, h as int) * w);
        let mut x: usize = 0;
        while x < w
            invariant
                w == width,
                h == height,
                w > 0,
                h > 0,
                w * h <= usize::MAX,
                y < h,
                x <= w,
                above == wrap(y - 1, h as int) * w,
                level == y * w,
                below == wrap(y + 1, h as int) * w,
                above + w <= h * w,
                level + w <= h * w,
                below + w <= h * w,
                table@.len() == y * w + x,
                forall|i: int, k: int|
                    0 <= i < table@.len() && 0 <= k < 8 ==> (#[trigger] table@[i]@[k])
                        == neighbor_of(w as int, h as int, i, k),
            decreases w - x,
        {
            let left: usize = if x > 0 {
                x
            } else {
                w
            } - 1;
            let right: usize = if x + 1 < w {
                x + 1
            } else {
                0
            };
            let entry: [usize; 8] = [
                above + left,
                above + x,
                above + right,
                level + left,
                level + right,
                below + left,
                below + x,
                below + right,
            ];
            proof {
                let i = y * w + x;
                lemma_index_split(w as int, y as int, x as int);
                lemma_wrap_small(x as int, w as int);
                lemma_wrap_small(y as int, h as int);
                lemma_wrap_step(x as int, w as int);
                assert(left == wrap(x - 1, w as int));
                assert(right == wrap(x + 1, w as int));
                assert forall|k: int| 0 <= k < 8 implies (#[trigger] entry@[k]) == neighbor_of(
                    w as int,
                    h as int,
                    i,
                    k,
                ) by {}
            }
            let ghost before = table@;
            table.push(entry);
            assert forall|i: int, k: int|
                0 <= i < table@.len() && 0 <= k < 8 implies (#[trigger] table@[i]@[k])
                == neighbor_of(w as int, h as int, i, k) by {
                if i < before.len() {
                    assert(table@[i] == before[i]);
                } else {
                    assert(table@[i] == entry);
                }
            }
            x += 1;
        }
        y += 1;
    }
    proof {
        assert(y * w == w * h) by (nonlinear_arith)
            requires
                y == h,
        ;
    }
    table
}

} // verus!
