//! Toroidal coordinate arithmetic: every integer coordinate pair names a cell
//! of a `width × height` grid whose edges are joined to the opposite edges.

use vstd::prelude::*;
use vstd::arithmetic::div_mod::{
    lemma_fundamental_div_mod,
    lemma_fundamental_div_mod_converse,
    lemma_mod_multiples_vanish,
    lemma_mod_bound,
};

verus! {

/// `x` folded into `[0, n)` by mathematical (never negative) modulo.
pub open spec fn wrap(x: int, n: int) -> int {
    x % n
}

/// Row-major storage index of the cell that the coordinates `(x, y)` name.
pub open spec fn cell_index(width: int, height: int, x: int, y: int) -> int {
    wrap(y, height) * width + wrap(x, width)
}

/// A folded coordinate lies inside the grid.
pub proof fn lemma_wrap_range(x: int, n: int)
    requires
        n > 0,
    ensures
        0 <= wrap(x, n) < n,
{
    lemma_mod_bound(x, n);
}

/// Coordinates inside the grid are left alone.
pub proof fn lemma_wrap_small(x: int, n: int)
    requires
        0 <= x < n,
    ensures
        wrap(x, n) == x,
{
    lemma_fundamental_div_mod_converse(x, n, 0, x);
}

/// Going round the torus any number of times changes nothing.
pub proof fn lemma_wrap_period(x: int, k: int, n: int)
    requires
        n > 0,
    ensures
        wrap(x + k * n, n) == wrap(x, n),
{
    lemma_mod_multiples_vanish(k, x, n);
    assert(n * k + x == x + k * n) by (nonlinear_arith);
}

/// Folding commutes with adding an offset.
pub proof fn lemma_wrap_add(x: int, d: int, n: int)
    requires
        n > 0,
    ensures
        wrap(wrap(x, n) + d, n) == wrap(x + d, n),
{
    lemma_fundamental_div_mod(x, n);
    let q = x / n;
    assert(x + d == (wrap(x, n) + d) + q * n) by (nonlinear_arith)
        requires
            x == n * q + wrap(x, n),
    ;
    lemma_wrap_period(wrap(x, n) + d, q, n);
}

/// One step to the right of the last column is the first column, and one step
/// to the left of the first column is the last.
pub proof fn lemma_wrap_step(x: int, n: int)
    requires
        n > 0,
    ensures
        wrap(x + 1, n) == (if wrap(x, n) == n - 1 {
            0
        } else {
            wrap(x, n) + 1
        }),
        wrap(x - 1, n) == (if wrap(x, n) == 0 {
            n - 1
        } else {
            wrap(x, n) - 1
        }),
{
    let r = wrap(x, n);
    lemma_wrap_range(x, n);
    lemma_wrap_add(x, 1, n);
    lemma_wrap_add(x, -1, n);
    if r == n - 1 {
        lemma_fundamental_div_mod_converse(r + 1, n, 1, 0);
    } else {
        lemma_wrap_small(r + 1, n);
    }
    if r == 0 {
        lemma_fundamental_div_mod_converse(r - 1, n, -1, n - 1);
    } else {
        lemma_wrap_small(r - 1, n);
    }
}

/// Every coordinate pair names a cell of the grid.
pub proof fn lemma_index_range(width: int, height: int, x: int, y: int)
    requires
        width > 0,
        height > 0,
    ensures
        0 <= cell_index(width, height, x, y) < width * height,
{
    lemma_wrap_range(x, width);
    lemma_wrap_range(y, height);
    let r = wrap(y, height);
    let c = wrap(x, width);
    assert(0 <= r * width + c < width * height) by (nonlinear_arith)
        requires
            0 <= r < height,
            0 <= c < width,
    ;
}

/// Wraparound: shifting `x` by whole widths, or `y` by whole heights, names
/// the same cell.
pub proof fn lemma_index_period(width: int, height: int, x: int, y: int, k: int)
    requires
        width > 0,
        height > 0,
    ensures
        cell_index(width, height, x + k * width, y) == cell_index(width, height, x, y),
        cell_index(width, height, x, y + k * height) == cell_index(width, height, x, y),
{
    lemma_wrap_period(x, k, width);
    lemma_wrap_period(y, k, height);
}

/// The cell stored at index `i` sits in column `i % width` of row `i / width`.
pub proof fn lemma_index_of_cell(width: int, height: int, i: int)
    requires
        width > 0,
        height > 0,
        0 <= i < width * height,
    ensures
        0 <= i % width < width,
        0 <= i / width < height,
        cell_index(width, height, i % width, i / width) == i,
{
    lemma_fundamental_div_mod(i, width);
    lemma_mod_bound(i, width);
    let q = i / width;
    let r = i % width;
    assert(0 <= q < height) by (nonlinear_arith)
        requires
            i == width * q + r,
            0 <= r < width,
            0 <= i < width * height,
            width > 0,
    ;
    lemma_wrap_small(q, height);
    lemma_wrap_small(r, width);
    assert(q * width + r == i) by (nonlinear_arith)
        requires
            i == width * q + r,
    ;
}

/// An index determines its row and column.
pub proof fn lemma_index_split(width: int, row: int, col: int)
    requires
        width > 0,
        0 <= col < width,
    ensures
        (row * width + col) % width == col,
        (row * width + col) / width == row,
{
    lemma_fundamental_div_mod_converse(row * width + col, width, row, col);
}

/// Folds a coordinate into `[0, n)`.
pub fn wrap_coord(x: i32, n: i32) -> (r: i32)
    requires
        n > 0,
    ensures
        r == wrap(x as int, n as int),
        0 <= r < n,
{
    let r: i32 = x % n;
    proof {
        lemma_wrap_range(x as int, n as int);
        if x < 0 {
            let m = -(x as int);
            lemma_fundamental_div_mod(m, n as int);
            lemma_mod_bound(m, n as int);
            let q = m / (n as int);
            if m % (n as int) == 0 {
                assert(x as int == (-q) * n + 0) by (nonlinear_arith)
                    requires
                        -(x as int) == n * q,
                ;
                lemma_fundamental_div_mod_converse(x as int, n as int, -q, 0);
            } else {
                let t = n - m % (n as int);
                assert(x as int == (-q - 1) * n + t) by (nonlinear_arith)
                    requires
                        -(x as int) == n * q + (n - t),
                ;
                lemma_fundamental_div_mod_converse(x as int, n as int, -q - 1, t);
            }
        }
    }
    if r < 0 {
        r + n
    } else {
        r
    }
}

/// Storage index of the cell at `(x, y)`, for any integer coordinates.
pub fn coord_index(width: i32, height: i32, x: i32, y: i32) -> (i: usize)
    requires
        width > 0,
        height > 0,
        width * height <= usize::MAX,
    ensures
        i == cell_index(width as int, height as int, x as int, y as int),
        i < width * height,
{
    let row: i32 = wrap_coord(y, height);
    let col: i32 = wrap_coord(x, width);
    proof {
        lemma_index_range(width as int, height as int, x as int, y as int);
    }
    row as usize * width as usize + col as usize
}

} // verus!
