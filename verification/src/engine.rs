//! The generation step, driven by the list of live cells: the work of one
//! generation grows with the population, not with the size of the grid.

use vstd::prelude::*;
use crate::cell::{CellState, Rgb, black, white, color_of};
use crate::life::{
    generations,
    hits,
    is_born,
    live_neighbors,
    next_generation,
    next_state,
    one_if,
    lemma_count_after_set,
    lemma_generations_len,
    lemma_has_live_neighbor,
};
use crate::neighbors::{is_neighbor_table, neighbor_of, lemma_neighbor_range, lemma_neighbor_symmetric};

verus! {

/// How many of the first `k` slots of a table entry hold the cell `j`.
pub open spec fn slot_hits(entry: Seq<usize>, j: int, k: int) -> int
    decreases k,
{
    if k <= 0 {
        0
    } else {
        slot_hits(entry, j, k - 1) + one_if(entry[k - 1] == j)
    }
}

/// `counts` holds, for every cell, the number of its live neighbours.
pub open spec fn counts_match(
    counts: Seq<u8>,
    cells: Seq<CellState>,
    width: int,
    height: int,
) -> bool {
    &&& counts.len() == cells.len()
    &&& forall|j: int|
        0 <= j < cells.len() ==> (#[trigger] counts[j]) == live_neighbors(cells, width, height, j)
}

/// `alive` lists the live cells of the grid, each of them once.
pub open spec fn alive_matches(alive: Seq<usize>, cells: Seq<CellState>) -> bool {
    &&& alive.no_duplicates()
    &&& forall|p: int|
        0 <= p < alive.len() ==> (#[trigger] alive[p]) < cells.len() && cells[alive[p] as int]
            == CellState::Alive
    &&& forall|j: int|
        0 <= j < cells.len() && (#[trigger] cells[j]) == CellState::Alive ==> alive.contains(
            j as usize,
        )
}

/// The frame after the cells changed from `before` to `after`: the pixel of
/// every cell that changed shows its new state, all others are untouched.
pub open spec fn repainted(pixels: Seq<Rgb>, before: Seq<CellState>, after: Seq<CellState>) -> Seq<
    Rgb,
> {
    Seq::new(
        pixels.len(),
        |j: int|
            if 0 <= j < before.len() && after[j] != before[j] {
                color_of(after[j])
            } else {
                pixels[j]
            },
    )
}

proof fn lemma_slot_hits_grow(entry: Seq<usize>, j: int, a: int, b: int)
    requires
        a <= b,
    ensures
        0 <= slot_hits(entry, j, a) <= slot_hits(entry, j, b),
    decreases b - a,
{
    if a < b {
        lemma_slot_hits_grow(entry, j, a, b - 1);
    } else {
        lemma_slot_hits_nonnegative(entry, j, a);
    }
}

proof fn lemma_slot_hits_nonnegative(entry: Seq<usize>, j: int, k: int)
    ensures
        0 <= slot_hits(entry, j, k),
    decreases k,
{
    if k > 0 {
        lemma_slot_hits_nonnegative(entry, j, k - 1);
    }
}

proof fn lemma_slot_hits_total(table: Seq<[usize; 8]>, width: int, height: int, c: int, j: int)
    requires
        is_neighbor_table(table, width, height),
        0 <= c < table.len(),
    ensures
        slot_hits(table[c]@, j, 8) == hits(width, height, c, j),
{
    reveal_with_fuel(slot_hits, 9);
    assert(table[c]@[0] == neighbor_of(width, height, c, 0));
    assert(table[c]@[1] == neighbor_of(width, height, c, 1));
    assert(table[c]@[2] == neighbor_of(width, height, c, 2));
    assert(table[c]@[3] == neighbor_of(width, height, c, 3));
    assert(table[c]@[4] == neighbor_of(width, height, c, 4));
    assert(table[c]@[5] == neighbor_of(width, height, c, 5));
    assert(table[c]@[6] == neighbor_of(width, height, c, 6));
    assert(table[c]@[7] == neighbor_of(width, height, c, 7));
}

/// Adds one to the count of every neighbour in `entry`, once for each slot.
fn raise_around(counts: &mut Vec<u8>, entry: &[usize; 8])
    requires
        forall|k: int| 0 <= k < 8 ==> (#[trigger] entry@[k]) < old(counts)@.len(),
        forall|j: int|
            0 <= j < old(counts)@.len() ==> (#[trigger] old(counts)@[j]) + slot_hits(entry@, j, 8)
                <= u8::MAX,
    ensures
        final(counts)@.len() == old(counts)@.len(),
        forall|j: int|
            0 <= j < old(counts)@.len() ==> (#[trigger] final(counts)@[j]) == old(counts)@[j]
                + slot_hits(entry@, j, 8),
{
    let mut k: usize = 0;
    while k < 8
        invariant
            k <= 8,
            counts@.len() == old(counts)@.len(),
            forall|k: int| 0 <= k < 8 ==> (#[trigger] entry@[k]) < old(counts)@.len(),
            forall|j: int|
                0 <= j < old(counts)@.len() ==> (#[trigger] old(counts)@[j]) + slot_hits(
                    entry@,
                    j,
                    8,
                ) <= u8::MAX,
            forall|j: int|
                0 <= j < old(counts)@.len() ==> (#[trigger] counts@[j]) == old(counts)@[j]
                    + slot_hits(entry@, j, k as int),
        decreases 8 - k,
    {
        let cell: usize = entry[k];
        proof {
            assert(entry@[k as int] < old(counts)@.len());
            lemma_slot_hits_grow(entry@, cell as int, k + 1, 8);
            assert(old(counts)@[cell as int] + slot_hits(entry@, cell as int, 8) <= u8::MAX);
        }
        let bumped: u8 = counts[cell] + 1;
        counts[cell] = bumped;
        k += 1;
    }
}

/// Takes one from the count of every neighbour in `entry`, once for each
/// slot.
fn lower_around(counts: &mut Vec<u8>, entry: &[usize; 8])
    requires
        forall|k: int| 0 <= k < 8 ==> (#[trigger] entry@[k]) < old(counts)@.len(),
        forall|j: int|
            0 <= j < old(counts)@.len() ==> (#[trigger] old(counts)@[j]) >= slot_hits(
                entry@,
                j,
                8,
            ),
    ensures
        final(counts)@.len() == old(counts)@.len(),
        forall|j: int|
            0 <= j < old(counts)@.len() ==> (#[trigger] final(counts)@[j]) == old(counts)@[j]
                - slot_hits(entry@, j, 8),
{
    let mut k: usize = 0;
    while k < 8
        invariant
            k <= 8,
            counts@.len() == old(counts)@.len(),
            forall|k: int| 0 <= k < 8 ==> (#[trigger] entry@[k]) < old(counts)@.len(),
            forall|j: int|
                0 <= j < old(counts)@.len() ==> (#[trigger] old(counts)@[j]) >= slot_hits(
                    entry@,
                    j,
                    8,
                ),
            forall|j: int|
                0 <= j < old(counts)@.len() ==> (#[trigger] counts@[j]) == old(counts)@[j]
                    - slot_hits(entry@, j, k as int),
        decreases 8 - k,
    {
        let cell: usize = entry[k];
        proof {
            assert(entry@[k as int] < old(counts)@.len());
            lemma_slot_hits_grow(entry@, cell as int, k + 1, 8);
            assert(old(counts)@[cell as int] >= slot_hits(entry@, cell as int, 8));
        }
        let lowered: u8 = counts[cell] - 1;
        counts[cell] = lowered;
        k += 1;
    }
}

/// Counts the live neighbours of every cell by walking the list of live
/// cells once.
pub(crate) fn count_neighbors(
    cells: &Vec<CellState>,
    alive: &Vec<usize>,
    table: &Vec<[usize; 8]>,
    Ghost(width): Ghost<int>,
    Ghost(height): Ghost<int>,
) -> (counts: Vec<u8>)
    requires
        width > 0,
        height > 0,
        cells@.len() == width * height,
        is_neighbor_table(table@, width, height),
        alive_matches(alive@, cells@),
    ensures
        counts_match(counts@, cells@, width, height),
{
    let n: usize = cells.len();
    let mut counts: Vec<u8> = vec![0u8; n];
    let ghost mut seen: Seq<CellState> = Seq::new(n as nat, |j: int| CellState::Dead);
    assert forall|j: int| 0 <= j < n implies (#[trigger] counts@[j]) == live_neighbors(
        seen,
        width,
        height,
        j,
    ) by {
        assert forall|k: int| 0 <= k < 8 implies seen[#[trigger] neighbor_of(width, height, j, k)]
            == CellState::Dead by {
            lemma_neighbor_range(width, height, j, k);
        }
    }
    let mut p: usize = 0;
    while p < alive.len()
        invariant
            width > 0,
            height > 0,
            n == cells@.len(),
            cells@.len() == width * height,
            is_neighbor_table(table@, width, height),
            alive_matches(alive@, cells@),
            p <= alive@.len(),
            seen.len() == n,
            counts_match(counts@, seen, width, height),
            forall|j: int|
                0 <= j < n ==> ((#[trigger] seen[j]) == CellState::Alive <==> exists|q: int|
                    0 <= q < p && alive@[q] == j),
        decreases alive@.len() - p,
    {
        let c: usize = alive[p];
        let ghost before = seen;
        proof {
            assert(alive@[p as int] < n);
            if seen[c as int] == CellState::Alive {
                let q = choose|q: int| 0 <= q < p && alive@[q] == c;
                assert(alive@[q] == alive@[p as int]);
            }
            seen = seen.update(c as int, CellState::Alive);
            assert forall|j: int| 0 <= j < n implies (#[trigger] counts@[j]) + slot_hits(
                table@[c as int]@,
                j,
                8,
            ) <= u8::MAX && live_neighbors(seen, width, height, j) == counts@[j] + slot_hits(
                table@[c as int]@,
                j,
                8,
            ) by {
                lemma_count_after_set(before, width, height, c as int, CellState::Alive, j);
                lemma_slot_hits_total(table@, width, height, c as int, j);
                assert(1 * hits(width, height, c as int, j) == hits(width, height, c as int, j));
            }
            assert forall|k: int| 0 <= k < 8 implies (#[trigger] table@[c as int]@[k]) < n by {
                lemma_neighbor_range(width, height, c as int, k);
            }
        }
        raise_around(&mut counts, &table[c]);
        proof {
            assert forall|j: int| 0 <= j < n implies ((#[trigger] seen[j]) == CellState::Alive
                <==> exists|q: int| 0 <= q < p + 1 && alive@[q] == j) by {
                if seen[j] == CellState::Alive {
                    if j == c {
                        assert(alive@[p as int] == j);
                    } else {
                        let q = choose|q: int| 0 <= q < p && alive@[q] == j;
                        assert(0 <= q < p + 1 && alive@[q] == j);
                    }
                }
                if exists|q: int| 0 <= q < p + 1 && alive@[q] == j {
                    let q = choose|q: int| 0 <= q < p + 1 && alive@[q] == j;
                    if q < p {
                        assert(before[j] == CellState::Alive);
                    }
                }
            }
        }
        p += 1;
    }
    proof {
        assert forall|j: int| 0 <= j < n implies (seen[j] == CellState::Alive) == (#[trigger] cells@[j]
            == CellState::Alive) by {
            if cells@[j] == CellState::Alive {
                assert(alive@.contains(j as usize));
                let q = choose|q: int| 0 <= q < alive@.len() && alive@[q] == j as usize;
                assert(0 <= q < p && alive@[q] == j);
            }
            if seen[j] == CellState::Alive {
                let q = choose|q: int| 0 <= q < p && alive@[q] == j;
                assert(cells@[alive@[q] as int] == CellState::Alive);
            }
        }
        assert forall|j: int| 0 <= j < n implies (#[trigger] counts@[j]) == live_neighbors(
            cells@,
            width,
            height,
            j,
        ) by {
            assert forall|k: int| 0 <= k < 8 implies (seen[#[trigger] neighbor_of(
                width,
                height,
                j,
                k,
            )] == CellState::Alive) == (cells@[neighbor_of(width, height, j, k)]
                == CellState::Alive) by {
                lemma_neighbor_range(width, height, j, k);
            }
        }
    }
    counts
}

/// Whether the cell at `j` comes alive when the births round a live cell
/// are settled, the first `k` neighbour slots in `entry` having been looked at.
pub open spec fn born_by(
    cells: Seq<CellState>,
    prev: Seq<u8>,
    entry: Seq<usize>,
    j: int,
    k: int,
) -> bool {
    cells[j] == CellState::Dead && is_born(prev[j] as int) && slot_hits(entry, j, k) > 0
}

/// Settles the births round one live cell: every dead neighbour that had
/// exactly three live neighbours before this generation comes alive, is
/// painted, is noted in `fresh`, and is counted in with its own neighbours.
fn spawn_around(
    cells: &mut Vec<CellState>,
    pixels: &mut Vec<Rgb>,
    fresh: &mut Vec<usize>,
    counts: &mut Vec<u8>,
    prev: &Vec<u8>,
    table: &Vec<[usize; 8]>,
    c: usize,
    Ghost(width): Ghost<int>,
    Ghost(height): Ghost<int>,
)
    requires
        width > 0,
        height > 0,
        old(cells)@.len() == width * height,
        is_neighbor_table(table@, width, height),
        c < old(cells)@.len(),
        prev@.len() == old(cells)@.len(),
        old(pixels)@.len() >= old(cells)@.len(),
        counts_match(old(counts)@, old(cells)@, width, height),
    ensures
        final(cells)@.len() == old(cells)@.len(),
        forall|j: int|
            0 <= j < old(cells)@.len() ==> (#[trigger] final(cells)@[j]) == (if born_by(
                old(cells)@,
                prev@,
                table@[c as int]@,
                j,
                8,
            ) {
                CellState::Alive
            } else {
                old(cells)@[j]
            }),
        counts_match(final(counts)@, final(cells)@, width, height),
        final(pixels)@ == repainted(old(pixels)@, old(cells)@, final(cells)@),
        final(fresh)@.len() >= old(fresh)@.len(),
        final(fresh)@.subrange(0, old(fresh)@.len() as int) == old(fresh)@,
        forall|p: int|
            old(fresh)@.len() <= p < final(fresh)@.len() ==> born_by(
                old(cells)@,
                prev@,
                table@[c as int]@,
                (#[trigger] final(fresh)@[p]) as int,
                8,
            ) && final(fresh)@[p] < old(cells)@.len(),
        forall|p: int, q: int|
            old(fresh)@.len() <= p < q < final(fresh)@.len() ==> final(fresh)@[p]
                != final(fresh)@[q],
        forall|j: int|
            0 <= j < old(cells)@.len() && #[trigger] born_by(
                old(cells)@,
                prev@,
                table@[c as int]@,
                j,
                8,
            ) ==> exists|p: int|
                old(fresh)@.len() <= p < final(fresh)@.len() && final(fresh)@[p] == j,
{
    let ghost n = cells@.len();
    let ghost entry = table@[c as int]@;
    let mut k: usize = 0;
    assert(pixels@ =~= repainted(old(pixels)@, old(cells)@, cells@));
    while k < 8
        invariant
            width > 0,
            height > 0,
            n == width * height,
            n == old(cells)@.len(),
            is_neighbor_table(table@, width, height),
            c < n,
            entry == table@[c as int]@,
            prev@.len() == n,
            pixels@.len() >= n,
            k <= 8,
            cells@.len() == n,
            forall|j: int|
                0 <= j < n ==> (#[trigger] cells@[j]) == (if born_by(
                    old(cells)@,
                    prev@,
                    entry,
                    j,
                    k as int,
                ) {
                    CellState::Alive
                } else {
                    old(cells)@[j]
                }),
            counts_match(counts@, cells@, width, height),
            pixels@ == repainted(old(pixels)@, old(cells)@, cells@),
            fresh@.len() >= old(fresh)@.len(),
            fresh@.subrange(0, old(fresh)@.len() as int) == old(fresh)@,
            forall|p: int|
                old(fresh)@.len() <= p < fresh@.len() ==> born_by(
                    old(cells)@,
                    prev@,
                    entry,
                    (#[trigger] fresh@[p]) as int,
                    k as int,
                ) && fresh@[p] < n,
            forall|p: int, q: int|
                old(fresh)@.len() <= p < q < fresh@.len() ==> fresh@[p] != fresh@[q],
            forall|j: int|
                0 <= j < n && #[trigger] born_by(old(cells)@, prev@, entry, j, k as int)
                    ==> exists|p: int| old(fresh)@.len() <= p < fresh@.len() && fresh@[p] == j,
        decreases 8 - k,
    {
        let cell: usize = table[c][k];
        proof {
            lemma_neighbor_range(width, height, c as int, k as int);
            assert(table@[c as int]@[k as int] == neighbor_of(width, height, c as int, k as int));
            assert forall|j: int| 0 <= j < n implies slot_hits(entry, j, k + 1) == slot_hits(
                entry,
                j,
                k as int,
            ) + one_if(cell == j) && slot_hits(entry, j, k as int) >= 0 by {
                lemma_slot_hits_nonnegative(entry, j, k as int);
            }
        }
        if prev[cell] == 3 && cells[cell] == CellState::Dead {
            let ghost cells_before = cells@;
            let ghost fresh_before = fresh@;
            let ghost pixels_before = pixels@;
            cells[cell] = CellState::Alive;
            pixels[cell] = white();
            fresh.push(cell);
            proof {
                assert forall|j: int| 0 <= j < n implies (#[trigger] counts@[j]) + slot_hits(
                    table@[cell as int]@,
                    j,
                    8,
                ) <= u8::MAX && live_neighbors(cells@, width, height, j) == counts@[j] + slot_hits(
                    table@[cell as int]@,
                    j,
                    8,
                ) by {
                    lemma_count_after_set(
                        cells_before,
                        width,
                        height,
                        cell as int,
                        CellState::Alive,
                        j,
                    );
                    lemma_slot_hits_total(table@, width, height, cell as int, j);
                    assert(1 * hits(width, height, cell as int, j) == hits(
                        width,
                        height,
                        cell as int,
                        j,
                    ));
                    assert(cells@ == cells_before.update(cell as int, CellState::Alive));
                }
                assert forall|k2: int| 0 <= k2 < 8 implies (#[trigger] table@[cell as int]@[k2])
                    < n by {
                    lemma_neighbor_range(width, height, cell as int, k2);
                }
            }
            raise_around(counts, &table[cell]);
            proof {
                assert(pixels@ =~= repainted(old(pixels)@, old(cells)@, cells@));
                assert(fresh@.subrange(0, old(fresh)@.len() as int) =~= old(fresh)@) by {
                    assert(fresh_before.subrange(0, old(fresh)@.len() as int) == old(fresh)@);
                }
                assert forall|p: int, q: int|
                    old(fresh)@.len() <= p < q < fresh@.len() implies fresh@[p] != fresh@[q] by {
                    if q == fresh@.len() - 1 {
                        assert(fresh@[p] == fresh_before[p]);
                        assert(born_by(old(cells)@, prev@, entry, fresh_before[p] as int, k as int));
                    } else {
                        assert(fresh@[p] == fresh_before[p]);
                        assert(fresh@[q] == fresh_before[q]);
                    }
                }
                assert forall|j: int|
                    0 <= j < n && #[trigger] born_by(
                        old(cells)@,
                        prev@,
                        entry,
                        j,
                        k + 1,
                    ) implies exists|p: int|
                    old(fresh)@.len() <= p < fresh@.len() && fresh@[p] == j by {
                    if j == cell {
                        assert(fresh@[fresh@.len() - 1] == j);
                    } else {
                        assert(born_by(old(cells)@, prev@, entry, j, k as int));
                        let p = choose|p: int|
                            old(fresh)@.len() <= p < fresh_before.len() && fresh_before[p] == j;
                        assert(fresh@[p] == j);
                    }
                }
                assert forall|p: int| old(fresh)@.len() <= p < fresh@.len() implies born_by(
                    old(cells)@,
                    prev@,
                    entry,
                    (#[trigger] fresh@[p]) as int,
                    k + 1,
                ) && fresh@[p] < n by {
                    if p < fresh_before.len() {
                        assert(fresh@[p] == fresh_before[p]);
                    }
                }
            }
        } else {
            proof {
                assert forall|j: int|
                    0 <= j < n && #[trigger] born_by(
                        old(cells)@,
                        prev@,
                        entry,
                        j,
                        k + 1,
                    ) implies exists|p: int|
                    old(fresh)@.len() <= p < fresh@.len() && fresh@[p] == j by {
                    assert(born_by(old(cells)@, prev@, entry, j, k as int));
                }
            }
        }
        k += 1;
    }
}

/// What must hold of one cell while the live cells of a generation are
/// walked: `orig` is its state before the generation, `now` its state at
/// this point, `done` whether the walk has dealt with it, and `count` the
/// number of its live neighbours before the generation.
pub open spec fn cell_settled(orig: CellState, now: CellState, done: bool, count: int) -> bool {
    match orig {
        CellState::Block => now == CellState::Block && !done,
        CellState::Alive => if done {
            now == next_state(CellState::Alive, count)
        } else {
            now == CellState::Alive
        },
        CellState::Dead => !done && (now == CellState::Dead || (now == CellState::Alive
            && is_born(count))),
    }
}

proof fn lemma_hit_by_slot(width: int, height: int, c: int, j: int, k: int)
    requires
        0 <= k < 8,
        neighbor_of(width, height, c, k) == j,
    ensures
        hits(width, height, c, j) > 0,
{
}

/// Advances the grid by one generation. Every cell decides from the counts
/// as they stood before the generation; `alive`, `counts` and the pixels of
/// the cells follow the grid.
#[verifier::spinoff_prover]
#[verifier::rlimit(60)]
pub(crate) fn step_generation(
    cells: &mut Vec<CellState>,
    pixels: &mut Vec<Rgb>,
    alive: &mut Vec<usize>,
    counts: &mut Vec<u8>,
    table: &Vec<[usize; 8]>,
    Ghost(width): Ghost<int>,
    Ghost(height): Ghost<int>,
)
    requires
        width > 0,
        height > 0,
        old(cells)@.len() == width * height,
        is_neighbor_table(table@, width, height),
        old(pixels)@.len() >= old(cells)@.len(),
        alive_matches(old(alive)@, old(cells)@),
        counts_match(old(counts)@, old(cells)@, width, height),
    ensures
        final(cells)@ == next_generation(old(cells)@, width, height),
        alive_matches(final(alive)@, final(cells)@),
        counts_match(final(counts)@, final(cells)@, width, height),
        final(pixels)@ == repainted(old(pixels)@, old(cells)@, final(cells)@),
{
    let prev: Vec<u8> = counts.clone();
    let ghost n = cells@.len();
    let ghost c0 = cells@;
    let ghost px0 = pixels@;
    assert(prev@ =~= counts@);
    let mut fresh: Vec<usize> = Vec::new();
    let ghost mut done: Seq<bool> = Seq::new(n, |j: int| false);
    let mut i: usize = 0;
    assert(pixels@ =~= repainted(px0, c0, cells@));
    while i < alive.len()
        invariant
            width > 0,
            height > 0,
            n == width * height,
            c0.len() == n,
            cells@.len() == n,
            prev@.len() == n,
            done.len() == n,
            pixels@.len() >= n,
            is_neighbor_table(table@, width, height),
            counts_match(prev@, c0, width, height),
            counts_match(counts@, cells@, width, height),
            pixels@ == repainted(px0, c0, cells@),
            i <= alive@.len(),
            alive@.no_duplicates(),
            forall|p: int|
                0 <= p < alive@.len() ==> (#[trigger] alive@[p]) < n && c0[alive@[p] as int]
                    == CellState::Alive && cells@[alive@[p] as int] == CellState::Alive && (
                done[alive@[p] as int] <==> p < i),
            forall|j: int|
                0 <= j < n && c0[j] == CellState::Alive && (#[trigger] cells@[j])
                    == CellState::Alive ==> alive@.contains(j as usize),
            fresh@.no_duplicates(),
            forall|p: int|
                0 <= p < fresh@.len() ==> (#[trigger] fresh@[p]) < n && c0[fresh@[p] as int]
                    == CellState::Dead && cells@[fresh@[p] as int] == CellState::Alive,
            forall|j: int|
                0 <= j < n && c0[j] == CellState::Dead && (#[trigger] cells@[j])
                    == CellState::Alive ==> fresh@.contains(j as usize),
            forall|j: int|
                0 <= j < n ==> cell_settled(c0[j], #[trigger] cells@[j], done[j], prev@[j] as int),
            forall|c: int, j: int|
                0 <= c < n && 0 <= j < n && done[c] && (#[trigger] hits(width, height, c, j)) > 0
                    && c0[j] == CellState::Dead && is_born(prev@[j] as int) ==> cells@[j]
                    == CellState::Alive,
        decreases alive@.len() - i,
    {
        let c: usize = alive[i];
        let around: u8 = prev[c];
        let died: bool = around < 2 || around > 3;
        let ghost cells_a = cells@;
        let ghost alive_a = alive@;
        let ghost fresh_a = fresh@;
        let ghost done_a = done;
        let ghost i_a = i;
        assert(alive@[i as int] < n);
        assert(cell_settled(c0[c as int], cells@[c as int], done[c as int], prev@[c as int] as int));
        if died {
            cells[c] = CellState::Dead;
            pixels[c] = black();
            alive.swap_remove(i);
            proof {
                assert forall|j: int| 0 <= j < n implies (#[trigger] counts@[j]) >= slot_hits(
                    table@[c as int]@,
                    j,
                    8,
                ) && live_neighbors(cells@, width, height, j) == counts@[j] - slot_hits(
                    table@[c as int]@,
                    j,
                    8,
                ) by {
                    lemma_count_after_set(cells_a, width, height, c as int, CellState::Dead, j);
                    lemma_slot_hits_total(table@, width, height, c as int, j);
                    assert((0 - 1) * hits(width, height, c as int, j) == -hits(
                        width,
                        height,
                        c as int,
                        j,
                    ));
                    assert(cells@ == cells_a.update(c as int, CellState::Dead));
                }
                assert forall|k: int| 0 <= k < 8 implies (#[trigger] table@[c as int]@[k]) < n by {
                    lemma_neighbor_range(width, height, c as int, k);
                }
            }
            lower_around(counts, &table[c]);
        } else {
            i += 1;
        }
        let ghost cells_b = cells@;
        let ghost pixels_b = pixels@;
        spawn_around(
            cells,
            pixels,
            &mut fresh,
            counts,
            &prev,
            table,
            c,
            Ghost(width),
            Ghost(height),
        );
        proof {
            done = done.update(c as int, true);
            let entry = table@[c as int]@;
            // a cell that was alive before this generation is never born in it
            assert forall|j: int| 0 <= j < n && c0[j] != CellState::Dead implies !born_by(
                cells_b,
                prev@,
                entry,
                j,
                8,
            ) by {
                assert(cell_settled(c0[j], cells_a[j], done_a[j], prev@[j] as int));
            }
            assert forall|j: int| 0 <= j < n implies cell_settled(
                c0[j],
                #[trigger] cells@[j],
                done[j],
                prev@[j] as int,
            ) by {
                assert(cell_settled(c0[j], cells_a[j], done_a[j], prev@[j] as int));
            }
            assert forall|p: int| 0 <= p < alive@.len() implies (#[trigger] alive@[p]) < n
                && c0[alive@[p] as int] == CellState::Alive && cells@[alive@[p] as int]
                == CellState::Alive && (done[alive@[p] as int] <==> p < i) by {
                if died {
                    let src = if p == i_a {
                        alive_a.len() - 1
                    } else {
                        p
                    };
                    assert(alive@[p] == alive_a[src]);
                    assert(alive_a[src] != alive_a[i_a as int]);
                } else {
                    assert(alive@[p] == alive_a[p]);
                    if p != i_a {
                        assert(alive_a[p] != alive_a[i_a as int]);
                    }
                }
            }
            assert(alive@.no_duplicates()) by {
                if died {
                    assert forall|p: int, q: int|
                        0 <= p < alive@.len() && 0 <= q < alive@.len() && p != q implies alive@[p]
                        != alive@[q] by {
                        let sp = if p == i_a {
                            alive_a.len() - 1
                        } else {
                            p
                        };
                        let sq = if q == i_a {
                            alive_a.len() - 1
                        } else {
                            q
                        };
                        assert(alive@[p] == alive_a[sp]);
                        assert(alive@[q] == alive_a[sq]);
                    }
                }
            }
            assert forall|j: int|
                0 <= j < n && c0[j] == CellState::Alive && (#[trigger] cells@[j])
                    == CellState::Alive implies alive@.contains(j as usize) by {
                assert(cells_a[j] == CellState::Alive);
                assert(alive_a.contains(j as usize));
                let p = choose|p: int| 0 <= p < alive_a.len() && alive_a[p] == j as usize;
                if died {
                    assert(j != c);
                    if p == alive_a.len() - 1 {
                        assert(alive@[i_a as int] == j as usize);
                    } else {
                        assert(alive@[p] == j as usize);
                    }
                } else {
                    assert(alive@[p] == j as usize);
                }
            }
            assert forall|p: int| 0 <= p < fresh@.len() implies (#[trigger] fresh@[p]) < n
                && c0[fresh@[p] as int] == CellState::Dead && cells@[fresh@[p] as int]
                == CellState::Alive by {
                if p < fresh_a.len() {
                    assert(fresh@[p] == fresh@.subrange(0, fresh_a.len() as int)[p]);
                    assert(fresh@[p] == fresh_a[p]);
                } else {
                    assert(born_by(cells_b, prev@, entry, fresh@[p] as int, 8));
                }
            }
            assert(fresh@.no_duplicates()) by {
                assert forall|p: int, q: int|
                    0 <= p < fresh@.len() && 0 <= q < fresh@.len() && p < q implies fresh@[p]
                    != fresh@[q] by {
                    if q < fresh_a.len() {
                        assert(fresh@[p] == fresh@.subrange(0, fresh_a.len() as int)[p]);
                        assert(fresh@[q] == fresh@.subrange(0, fresh_a.len() as int)[q]);
                    } else if p < fresh_a.len() {
                        assert(fresh@[p] == fresh@.subrange(0, fresh_a.len() as int)[p]);
                        assert(cells_a[fresh_a[p] as int] == CellState::Alive);
                        assert(born_by(cells_b, prev@, entry, fresh@[q] as int, 8));
                    }
                }
            }
            assert forall|j: int|
                0 <= j < n && c0[j] == CellState::Dead && (#[trigger] cells@[j])
                    == CellState::Alive implies fresh@.contains(j as usize) by {
                if born_by(cells_b, prev@, entry, j, 8) {
                    let p = choose|p: int| fresh_a.len() <= p < fresh@.len() && fresh@[p] == j;
                    assert(fresh@[p] == j as usize);
                } else {
                    assert(cells_a[j] == CellState::Alive);
                    assert(fresh_a.contains(j as usize));
                    let p = choose|p: int| 0 <= p < fresh_a.len() && fresh_a[p] == j as usize;
                    assert(fresh@[p] == fresh@.subrange(0, fresh_a.len() as int)[p]);
                }
            }
            assert forall|c2: int, j: int|
                0 <= c2 < n && 0 <= j < n && done[c2] && (#[trigger] hits(width, height, c2, j))
                    > 0 && c0[j] == CellState::Dead && is_born(prev@[j] as int) implies cells@[j]
                == CellState::Alive by {
                assert(cell_settled(c0[j], cells_a[j], done_a[j], prev@[j] as int));
                if c2 == c {
                    lemma_slot_hits_total(table@, width, height, c as int, j);
                } else {
                    assert(done_a[c2]);
                }
            }
            assert(pixels@ =~= repainted(px0, c0, cells@)) by {
                assert forall|j: int| 0 <= j < pixels@.len() implies pixels@[j] == repainted(
                    px0,
                    c0,
                    cells@,
                )[j] by {
                    if j < n {
                        assert(cell_settled(c0[j], cells_a[j], done_a[j], prev@[j] as int));
                    }
                }
            }
        }
    }
    let ghost survivors = alive@;
    let ghost newborn = fresh@;
    alive.append(&mut fresh);
    proof {
        // every cell that was alive has been dealt with
        assert forall|j: int| 0 <= j < n && c0[j] == CellState::Alive implies done[j] by {
            assert(cell_settled(c0[j], cells@[j], done[j], prev@[j] as int));
            if cells@[j] == CellState::Alive {
                assert(survivors.contains(j as usize));
            }
        }
        assert forall|j: int| 0 <= j < n implies cells@[j] == next_generation(
            c0,
            width,
            height,
        )[j] by {
            assert(cell_settled(c0[j], cells@[j], done[j], prev@[j] as int));
            if c0[j] == CellState::Dead && is_born(prev@[j] as int) {
                lemma_has_live_neighbor(c0, width, height, j);
                let k = choose|k: int|
                    0 <= k < 8 && c0[#[trigger] neighbor_of(width, height, j, k)]
                        == CellState::Alive;
                let c = neighbor_of(width, height, j, k);
                lemma_neighbor_range(width, height, j, k);
                lemma_neighbor_symmetric(width, height, j, k);
                lemma_hit_by_slot(width, height, c, j, 7 - k);
            }
        }
        assert(cells@ =~= next_generation(c0, width, height));
        vstd::seq_lib::lemma_no_dup_in_concat(survivors, newborn);
        assert forall|j: int|
            0 <= j < n && (#[trigger] cells@[j]) == CellState::Alive implies alive@.contains(
            j as usize,
        ) by {
            assert(cell_settled(c0[j], cells@[j], done[j], prev@[j] as int));
            if c0[j] == CellState::Alive {
                assert(survivors.contains(j as usize));
                let p = choose|p: int| 0 <= p < survivors.len() && survivors[p] == j as usize;
                assert(alive@[p] == j as usize);
            } else {
                assert(newborn.contains(j as usize));
                let p = choose|p: int| 0 <= p < newborn.len() && newborn[p] == j as usize;
                assert(alive@[survivors.len() + p] == j as usize);
            }
        }
    }
}

/// The live cells of a grid, as a set of indices.
pub open spec fn live_set(cells: Seq<CellState>) -> Set<usize> {
    Set::new(|j: usize| j < cells.len() && cells[j as int] == CellState::Alive)
}

/// Number of live cells of a grid.
pub open spec fn population(cells: Seq<CellState>) -> nat {
    live_set(cells).len()
}

/// A list of the live cells is as long as the grid has live cells, and holds
/// just these.
pub proof fn lemma_alive_population(alive: Seq<usize>, cells: Seq<CellState>)
    requires
        alive_matches(alive, cells),
    ensures
        alive.to_set() == live_set(cells),
        alive.len() == population(cells),
        live_set(cells).finite(),
{
    assert forall|j: usize| alive.to_set().contains(j) == live_set(cells).contains(j) by {
        if alive.to_set().contains(j) {
            let p = choose|p: int| 0 <= p < alive.len() && alive[p] == j;
            assert(cells[alive[p] as int] == CellState::Alive);
        }
        if live_set(cells).contains(j) {
            assert(cells[j as int] == CellState::Alive);
            assert(alive.contains(j));
        }
    }
    assert(alive.to_set() =~= live_set(cells));
    alive.unique_seq_to_set();
    vstd::seq_lib::seq_to_set_is_finite(alive);
}

/// Takes `cell` off a list that holds it once.
pub(crate) fn forget_alive(alive: &mut Vec<usize>, cell: usize)
    requires
        old(alive)@.no_duplicates(),
        old(alive)@.contains(cell),
    ensures
        final(alive)@.no_duplicates(),
        forall|x: usize| final(alive)@.contains(x) <==> old(alive)@.contains(x) && x != cell,
{
    let mut p: usize = 0;
    while p < alive.len() && alive[p] != cell
        invariant
            alive@ == old(alive)@,
            p <= alive@.len(),
            forall|q: int| 0 <= q < p ==> alive@[q] != cell,
        decreases alive@.len() - p,
    {
        p += 1;
    }
    proof {
        let at = choose|q: int| 0 <= q < alive@.len() && alive@[q] == cell;
        assert(p <= at);
    }
    let ghost before = alive@;
    alive.swap_remove(p);
    proof {
        let last = before.len() - 1;
        assert forall|a: int, b: int|
            0 <= a < alive@.len() && 0 <= b < alive@.len() && a != b implies alive@[a]
            != alive@[b] by {
            let sa = if a == p {
                last
            } else {
                a
            };
            let sb = if b == p {
                last
            } else {
                b
            };
            assert(alive@[a] == before[sa]);
            assert(alive@[b] == before[sb]);
        }
        assert forall|x: usize| alive@.contains(x) <==> before.contains(x) && x != cell by {
            if alive@.contains(x) {
                let a = choose|a: int| 0 <= a < alive@.len() && alive@[a] == x;
                let sa = if a == p {
                    last
                } else {
                    a
                };
                assert(alive@[a] == before[sa]);
                assert(before[sa] != before[p as int]);
            }
            if before.contains(x) && x != cell {
                let b = choose|b: int| 0 <= b < before.len() && before[b] == x;
                if b == last {
                    assert(alive@[p as int] == x);
                } else {
                    assert(alive@[b] == x);
                }
            }
        }
    }
}

/// Lists the live cells of a grid by looking at every cell.
pub(crate) fn collect_alive(alive: &mut Vec<usize>, cells: &Vec<CellState>)
    ensures
        alive_matches(final(alive)@, cells@),
{
    alive.clear();
    let mut i: usize = 0;
    while i < cells.len()
        invariant
            i <= cells@.len(),
            forall|p: int|
                0 <= p < alive@.len() ==> (#[trigger] alive@[p]) < i && cells@[alive@[p] as int]
                    == CellState::Alive,
            forall|p: int, q: int| 0 <= p < q < alive@.len() ==> alive@[p] < alive@[q],
            forall|j: int|
                0 <= j < i && (#[trigger] cells@[j]) == CellState::Alive ==> alive@.contains(
                    j as usize,
                ),
        decreases cells@.len() - i,
    {
        if cells[i] == CellState::Alive {
            let ghost before = alive@;
            alive.push(i);
            proof {
                assert forall|j: int|
                    0 <= j < i + 1 && (#[trigger] cells@[j]) == CellState::Alive implies alive@.contains(
                    j as usize,
                ) by {
                    if j == i {
                        assert(alive@[before.len() as int] == j as usize);
                    } else {
                        assert(before.contains(j as usize));
                        let p = choose|p: int| 0 <= p < before.len() && before[p] == j as usize;
                        assert(alive@[p] == j as usize);
                    }
                }
            }
        }
        i += 1;
    }
}

/// The frame after `n` generations from `cells`: every cell that changed in
/// one of them shows the state it changed to last.
pub open spec fn batch_painted(
    pixels: Seq<Rgb>,
    cells: Seq<CellState>,
    width: int,
    height: int,
    n: nat,
) -> Seq<Rgb>
    decreases n,
{
    if n == 0 {
        pixels
    } else {
        repainted(
            batch_painted(pixels, cells, width, height, (n - 1) as nat),
            generations(cells, width, height, (n - 1) as nat),
            generations(cells, width, height, n),
        )
    }
}

/// Advances the grid by `n` generations. The neighbours are counted once,
/// from the list of live cells, and kept up from generation to generation.
pub(crate) fn run_generations(
    cells: &mut Vec<CellState>,
    pixels: &mut Vec<Rgb>,
    alive: &mut Vec<usize>,
    table: &Vec<[usize; 8]>,
    n: u64,
    Ghost(width): Ghost<int>,
    Ghost(height): Ghost<int>,
)
    requires
        width > 0,
        height > 0,
        old(cells)@.len() == width * height,
        is_neighbor_table(table@, width, height),
        old(pixels)@.len() >= old(cells)@.len(),
        alive_matches(old(alive)@, old(cells)@),
    ensures
        final(cells)@ == generations(old(cells)@, width, height, n as nat),
        final(pixels)@ == batch_painted(old(pixels)@, old(cells)@, width, height, n as nat),
        final(pixels)@.len() == old(pixels)@.len(),
        alive_matches(final(alive)@, final(cells)@),
{
    let mut counts: Vec<u8> = count_neighbors(cells, alive, table, Ghost(width), Ghost(height));
    let mut k: u64 = 0;
    while k < n
        invariant
            k <= n,
            width > 0,
            height > 0,
            old(cells)@.len() == width * height,
            old(pixels)@.len() >= old(cells)@.len(),
            is_neighbor_table(table@, width, height),
            cells@ == generations(old(cells)@, width, height, k as nat),
            pixels@ == batch_painted(old(pixels)@, old(cells)@, width, height, k as nat),
            pixels@.len() == old(pixels)@.len(),
            alive_matches(alive@, cells@),
            counts_match(counts@, cells@, width, height),
        decreases n - k,
    {
        proof {
            lemma_generations_len(old(cells)@, width, height, k as nat);
        }
        step_generation(cells, pixels, alive, &mut counts, table, Ghost(width), Ghost(height));
        k += 1;
    }
}

} // verus!
