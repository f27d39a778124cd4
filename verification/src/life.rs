//! The rules of the automaton, stated over a grid held as a sequence of cell
//! states in row-major order.

use vstd::prelude::*;
use crate::cell::CellState;
use crate::neighbors::{neighbor_of, lemma_neighbor_range, lemma_neighbor_symmetric};

verus! {

/// 1 if `b` holds, else 0.
pub open spec fn one_if(b: bool) -> int {
    if b {
        1
    } else {
        0
    }
}

/// 1 if the cell at index `i` is alive, else 0. A block counts as dead.
pub open spec fn live(cells: Seq<CellState>, i: int) -> int {
    one_if(cells[i] == CellState::Alive)
}

/// Number of live cells among the eight neighbours of the cell at index `i`.
/// Where the grid is so narrow that a cell fills several neighbour slots, it
/// counts once for each slot.
pub open spec fn live_neighbors(cells: Seq<CellState>, width: int, height: int, i: int) -> int {
    live(cells, neighbor_of(width, height, i, 0)) + live(cells, neighbor_of(width, height, i, 1))
        + live(cells, neighbor_of(width, height, i, 2)) + live(
        cells,
        neighbor_of(width, height, i, 3),
    ) + live(cells, neighbor_of(width, height, i, 4)) + live(
        cells,
        neighbor_of(width, height, i, 5),
    ) + live(cells, neighbor_of(width, height, i, 6)) + live(
        cells,
        neighbor_of(width, height, i, 7),
    )
}

/// Whether a live cell with `n` live neighbours stays alive.
pub open spec fn survives(n: int) -> bool {
    n == 2 || n == 3
}

/// Whether a dead cell with `n` live neighbours comes alive.
pub open spec fn is_born(n: int) -> bool {
    n == 3
}

/// State of a cell after one generation, given its state and the number of
/// its live neighbours before.
pub open spec fn next_state(state: CellState, n: int) -> CellState {
    match state {
        CellState::Block => CellState::Block,
        CellState::Alive => if survives(n) {
            CellState::Alive
        } else {
            CellState::Dead
        },
        CellState::Dead => if is_born(n) {
            CellState::Alive
        } else {
            CellState::Dead
        },
    }
}

/// The grid after one generation: every cell decides from the grid before.
pub open spec fn next_generation(cells: Seq<CellState>, width: int, height: int) -> Seq<
    CellState,
> {
    Seq::new(cells.len(), |i: int| next_state(cells[i], live_neighbors(cells, width, height, i)))
}

/// The grid after `n` generations.
pub open spec fn generations(cells: Seq<CellState>, width: int, height: int, n: nat) -> Seq<
    CellState,
>
    decreases n,
{
    if n == 0 {
        cells
    } else {
        next_generation(generations(cells, width, height, (n - 1) as nat), width, height)
    }
}

/// How many neighbour slots of the cell at index `c` hold the cell at `j`.
pub open spec fn hits(width: int, height: int, c: int, j: int) -> int {
    one_if(neighbor_of(width, height, c, 0) == j) + one_if(neighbor_of(width, height, c, 1) == j)
        + one_if(neighbor_of(width, height, c, 2) == j) + one_if(
        neighbor_of(width, height, c, 3) == j,
    ) + one_if(neighbor_of(width, height, c, 4) == j) + one_if(
        neighbor_of(width, height, c, 5) == j,
    ) + one_if(neighbor_of(width, height, c, 6) == j) + one_if(
        neighbor_of(width, height, c, 7) == j,
    )
}

/// The grid's size never changes.
pub proof fn lemma_generations_len(cells: Seq<CellState>, width: int, height: int, n: nat)
    ensures
        generations(cells, width, height, n).len() == cells.len(),
    decreases n,
{
    if n > 0 {
        lemma_generations_len(cells, width, height, (n - 1) as nat);
    }
}

/// Running `a` generations and then `b` more is running `a + b`.
pub proof fn lemma_generations_add(
    cells: Seq<CellState>,
    width: int,
    height: int,
    a: nat,
    b: nat,
)
    ensures
        generations(generations(cells, width, height, a), width, height, b) == generations(
            cells,
            width,
            height,
            a + b,
        ),
    decreases b,
{
    if b > 0 {
        lemma_generations_add(cells, width, height, a, (b - 1) as nat);
        assert((a + b - 1) as nat == a + (b - 1) as nat);
    }
}

/// A cell is in as many neighbour slots of another as the other is in its.
pub proof fn lemma_hits_symmetric(width: int, height: int, c: int, j: int)
    requires
        width > 0,
        height > 0,
        0 <= c < width * height,
        0 <= j < width * height,
    ensures
        hits(width, height, c, j) == hits(width, height, j, c),
{
    assert forall|k: int| 0 <= k < 8 implies (neighbor_of(width, height, c, k) == j) == (
    #[trigger] neighbor_of(width, height, j, 7 - k) == c) by {
        lemma_neighbor_symmetric(width, height, c, k);
        lemma_neighbor_symmetric(width, height, j, 7 - k);
    }
    assert(neighbor_of(width, height, j, 7 - 0) == neighbor_of(width, height, j, 7));
    assert(neighbor_of(width, height, j, 7 - 1) == neighbor_of(width, height, j, 6));
    assert(neighbor_of(width, height, j, 7 - 2) == neighbor_of(width, height, j, 5));
    assert(neighbor_of(width, height, j, 7 - 3) == neighbor_of(width, height, j, 4));
    assert(neighbor_of(width, height, j, 7 - 4) == neighbor_of(width, height, j, 3));
    assert(neighbor_of(width, height, j, 7 - 5) == neighbor_of(width, height, j, 2));
    assert(neighbor_of(width, height, j, 7 - 6) == neighbor_of(width, height, j, 1));
    assert(neighbor_of(width, height, j, 7 - 7) == neighbor_of(width, height, j, 0));
}

/// A cell with a live neighbour count above zero has a live neighbour.
pub proof fn lemma_has_live_neighbor(cells: Seq<CellState>, width: int, height: int, i: int)
    requires
        live_neighbors(cells, width, height, i) > 0,
    ensures
        exists|k: int|
            0 <= k < 8 && cells[#[trigger] neighbor_of(width, height, i, k)] == CellState::Alive,
{
    if cells[neighbor_of(width, height, i, 0)] == CellState::Alive {
    } else if cells[neighbor_of(width, height, i, 1)] == CellState::Alive {
    } else if cells[neighbor_of(width, height, i, 2)] == CellState::Alive {
    } else if cells[neighbor_of(width, height, i, 3)] == CellState::Alive {
    } else if cells[neighbor_of(width, height, i, 4)] == CellState::Alive {
    } else if cells[neighbor_of(width, height, i, 5)] == CellState::Alive {
    } else if cells[neighbor_of(width, height, i, 6)] == CellState::Alive {
    } else {
        assert(cells[neighbor_of(width, height, i, 7)] == CellState::Alive);
    }
}

/// What a change of one cell does to the neighbour counts: where the cell at
/// `c` comes alive, every cell gains one live neighbour for each of its slots
/// that holds `c`; where it stops being alive, every cell loses as many; a
/// change between dead and block changes no count.
pub proof fn lemma_count_after_set(
    cells: Seq<CellState>,
    width: int,
    height: int,
    c: int,
    state: CellState,
    j: int,
)
    requires
        width > 0,
        height > 0,
        cells.len() == width * height,
        0 <= c < cells.len(),
        0 <= j < cells.len(),
    ensures
        live_neighbors(cells.update(c, state), width, height, j) == live_neighbors(
            cells,
            width,
            height,
            j,
        ) + (one_if(state == CellState::Alive) - live(cells, c)) * hits(width, height, c, j),
{
    let after = cells.update(c, state);
    let d = one_if(state == CellState::Alive) - live(cells, c);
    lemma_hits_symmetric(width, height, c, j);
    assert forall|k: int| 0 <= k < 8 implies live(after, #[trigger] neighbor_of(width, height, j, k))
        == live(cells, neighbor_of(width, height, j, k)) + d * one_if(
        neighbor_of(width, height, j, k) == c,
    ) by {
        lemma_neighbor_range(width, height, j, k);
    }
    let n0 = one_if(neighbor_of(width, height, j, 0) == c);
    let n1 = one_if(neighbor_of(width, height, j, 1) == c);
    let n2 = one_if(neighbor_of(width, height, j, 2) == c);
    let n3 = one_if(neighbor_of(width, height, j, 3) == c);
    let n4 = one_if(neighbor_of(width, height, j, 4) == c);
    let n5 = one_if(neighbor_of(width, height, j, 5) == c);
    let n6 = one_if(neighbor_of(width, height, j, 6) == c);
    let n7 = one_if(neighbor_of(width, height, j, 7) == c);
    assert(d * n0 + d * n1 + d * n2 + d * n3 + d * n4 + d * n5 + d * n6 + d * n7 == d * (n0 + n1
        + n2 + n3 + n4 + n5 + n6 + n7)) by (nonlinear_arith);
}

/// Block immutability: a block stays a block through any number of
/// generations.
pub proof fn lemma_block_stays(cells: Seq<CellState>, width: int, height: int, n: nat, i: int)
    requires
        0 <= i < cells.len(),
        cells[i] == CellState::Block,
    ensures
        generations(cells, width, height, n)[i] == CellState::Block,
    decreases n,
{
    if n > 0 {
        lemma_block_stays(cells, width, height, (n - 1) as nat, i);
        lemma_generations_len(cells, width, height, (n - 1) as nat);
    }
}

/// The grid with every block taken out.
pub open spec fn without_blocks(cells: Seq<CellState>) -> Seq<CellState> {
    Seq::new(
        cells.len(),
        |i: int|
            if cells[i] == CellState::Block {
                CellState::Dead
            } else {
                cells[i]
            },
    )
}

/// A block counts as a dead neighbour: taking the blocks out of the grid
/// changes no cell's count of live neighbours, so every cell that is not a
/// block fares as it would without them.
pub proof fn lemma_block_counts_as_dead(cells: Seq<CellState>, width: int, height: int, i: int)
    requires
        width > 0,
        height > 0,
        cells.len() == width * height,
        0 <= i < cells.len(),
    ensures
        live_neighbors(cells, width, height, i) == live_neighbors(
            without_blocks(cells),
            width,
            height,
            i,
        ),
        cells[i] != CellState::Block ==> next_generation(cells, width, height)[i]
            == next_generation(without_blocks(cells), width, height)[i],
{
    assert forall|k: int| 0 <= k < 8 implies live(cells, #[trigger] neighbor_of(width, height, i, k))
        == live(without_blocks(cells), neighbor_of(width, height, i, k)) by {
        lemma_neighbor_range(width, height, i, k);
    }
}

} // verus!
