//! What holds of the commands of a session taken together.

use vstd::prelude::*;
use crate::cell::{CellState, Rgb, color_of};
use crate::engine::{batch_painted, repainted};
use crate::life::{generations, lemma_generations_len};
use crate::codec::{
    encoded,
    group_value,
    header_spec,
    readable_cells,
    stream_bit,
    symbol_of,
    echoed,
    lemma_group_bits,
    lemma_header_round_trip,
    lemma_readable_all,
    lemma_round_trip,
    lemma_symbol_value,
    PasteError,
};
use crate::region::lemma_rect_cell;
use crate::state::{
    all_painted,
    clip_hits,
    clip_pasted,
    clip_target,
    in_rect,
    lemma_valid_bounds,
    region_bits,
    tile_origin,
    tiles_pasted,
    GameState,
};
use crate::torus::lemma_index_range;

verus! {

/// Setting a cell is idempotent: to set it to the same state once more
/// changes nothing, neither the cells nor the frame.
pub proof fn lemma_set_idempotent(s: GameState, x: int, y: int, state: CellState)
    requires
        s.valid(),
    ensures
        s.with_cell(x, y, state).with_cell(x, y, state) == s.with_cell(x, y, state),
        s.cell(x, y) == state ==> s.with_cell(x, y, state) == s,
{
    let once = s.with_cell(x, y, state);
    let twice = once.with_cell(x, y, state);
    lemma_index_range(s.width, s.height, x, y);
    assert(twice.cells =~= once.cells);
    assert(twice.pixels =~= once.pixels);
    if s.cell(x, y) == state {
        assert(once.cells =~= s.cells);
        assert(once.pixels =~= s.pixels);
    }
}

/// Whether every cell is shown by its pixel in the colour of its state.
pub open spec fn shows(pixels: Seq<Rgb>, cells: Seq<CellState>) -> bool {
    &&& cells.len() <= pixels.len()
    &&& forall|j: int| 0 <= j < cells.len() ==> (#[trigger] pixels[j]) == color_of(cells[j])
}

/// The frame follows the cells: where every cell was shown by its pixel, a
/// change of cells leaves every cell shown by its pixel.
pub proof fn lemma_repainted_shows(pixels: Seq<Rgb>, before: Seq<CellState>, after: Seq<CellState>)
    requires
        shows(pixels, before),
        after.len() == before.len(),
    ensures
        shows(repainted(pixels, before, after), after),
{
}

/// The frame follows the cells through any number of generations.
pub proof fn lemma_batch_shows(
    pixels: Seq<Rgb>,
    cells: Seq<CellState>,
    width: int,
    height: int,
    n: nat,
)
    requires
        shows(pixels, cells),
    ensures
        shows(
            batch_painted(pixels, cells, width, height, n),
            generations(cells, width, height, n),
        ),
    decreases n,
{
    if n > 0 {
        lemma_batch_shows(pixels, cells, width, height, (n - 1) as nat);
        lemma_generations_len(cells, width, height, (n - 1) as nat);
        lemma_generations_len(cells, width, height, n);
        lemma_repainted_shows(
            batch_painted(pixels, cells, width, height, (n - 1) as nat),
            generations(cells, width, height, (n - 1) as nat),
            generations(cells, width, height, n),
        );
    }
}

/// The frame follows a fill: where every cell was shown by its pixel, every
/// cell is after the cells of a rectangle were set and painted.
pub proof fn lemma_fill_shows(s: GameState, state: CellState)
    requires
        s.valid(),
        shows(s.pixels, s.cells),
    ensures
        shows(s.filled(state).pixels, s.filled(state).cells),
{
}

/// A random fill and a reset paint every cell.
pub proof fn lemma_all_painted_shows(pixels: Seq<Rgb>, cells: Seq<CellState>)
    requires
        cells.len() <= pixels.len(),
    ensures
        shows(all_painted(pixels, cells), cells),
{
}

/// Every symbol of the text of a rectangle is of the alphabet.
proof fn lemma_encoded_readable(bits: Seq<bool>, t: int)
    requires
        0 <= t,
        encoded(bits).len() > 0,
    ensures
        stream_bit(encoded(bits), t) is Some,
{
    let symbols = encoded(bits);
    let g = (t / 6) % (symbols.len() as int);
    vstd::arithmetic::div_mod::lemma_mod_bound(t / 6, symbols.len() as int);
    lemma_group_bits(bits, g, 0);
    lemma_symbol_value(group_value(bits, g));
    assert(symbols[g] == symbol_of(group_value(bits, g)));
}

/// Bit `t` of a rectangle no larger than the grid falls on a cell of the
/// rectangle, `t % across` columns and `t / across` rows on from its first
/// cell, and no other bit falls on that cell.
proof fn lemma_clip_target(
    width: int,
    height: int,
    c: (int, int),
    size: (int, int),
    t: int,
    u: int,
)
    requires
        0 < size.0 <= width,
        0 < size.1 <= height,
        0 <= t < size.0 * size.1,
        0 <= u < size.0 * size.1,
    ensures
        0 <= clip_target(width, height, c, size.0, t) < width * height,
        in_rect(width, height, c, size, clip_target(width, height, c, size.0, t)),
        clip_target(width, height, c, size.0, t) == clip_target(width, height, c, size.0, u)
            ==> t == u,
{
    let j = clip_target(width, height, c, size.0, t);
    let k = clip_target(width, height, c, size.0, u);
    vstd::arithmetic::div_mod::lemma_fundamental_div_mod(t, size.0);
    vstd::arithmetic::div_mod::lemma_fundamental_div_mod(u, size.0);
    vstd::arithmetic::div_mod::lemma_mod_bound(t, size.0);
    vstd::arithmetic::div_mod::lemma_mod_bound(u, size.0);
    assert(0 <= t / size.0 < size.1) by (nonlinear_arith)
        requires
            t == size.0 * (t / size.0) + t % size.0,
            0 <= t % size.0 < size.0,
            0 <= t < size.0 * size.1,
    ;
    assert(0 <= u / size.0 < size.1) by (nonlinear_arith)
        requires
            u == size.0 * (u / size.0) + u % size.0,
            0 <= u % size.0 < size.0,
            0 <= u < size.0 * size.1,
    ;
    lemma_index_range(width, height, c.0 + t % size.0, c.1 + t / size.0);
    lemma_index_range(width, height, c.0 + u % size.0, c.1 + u / size.0);
    lemma_rect_cell(width, height, c, t % size.0, t / size.0, j);
    lemma_rect_cell(width, height, c, u % size.0, u / size.0, j);
    lemma_rect_cell(width, height, c, u % size.0, u / size.0, k);
}

/// A pattern of the size of the selection is pasted once, at the cursor,
/// over the cleared selection, if all its symbols are of the alphabet.
proof fn lemma_paste_one_tile(target: GameState, symbols: Seq<u8>, size: (int, int))
    requires
        target.valid(),
        target.selection == Some(size),
        size.0 >= 1,
        size.1 >= 1,
        readable_cells(symbols, size.0 * size.1) == size.0 * size.1,
    ensures
        target.pasted_symbols(symbols, size).cells == clip_pasted(
            target.filled(CellState::Dead).cells,
            symbols,
            target.width,
            target.height,
            target.cursor,
            size.0,
            size.0 * size.1,
        ),
        !target.paste_stops(symbols, size),
{
    vstd::arithmetic::div_mod::lemma_div_by_self(size.0);
    vstd::arithmetic::div_mod::lemma_div_by_self(size.1);
    assert(target.tiles_across(size) == 1);
    assert(target.tiles_down(size) == 1);
    reveal_with_fuel(tiles_pasted, 2);
    assert(tile_origin(target.cursor, size, 1, 0) == target.cursor);
}

/// The cell that takes bit `t` of a paste into a rectangle no larger than
/// the grid is alive after the paste if the bit is set, and as it was if
/// not.
proof fn lemma_pasted_cell(
    cells: Seq<CellState>,
    symbols: Seq<u8>,
    width: int,
    height: int,
    c: (int, int),
    size: (int, int),
    t: int,
)
    requires
        0 < size.0 <= width,
        0 < size.1 <= height,
        cells.len() == width * height,
        0 <= t < size.0 * size.1,
    ensures
        ({
            let to = clip_target(width, height, c, size.0, t);
            clip_pasted(cells, symbols, width, height, c, size.0, size.0 * size.1)[to] == (
            if stream_bit(symbols, t) == Some(true) {
                CellState::Alive
            } else {
                cells[to]
            })
        }),
{
    let area = size.0 * size.1;
    let to = clip_target(width, height, c, size.0, t);
    lemma_clip_target(width, height, c, size, t, t);
    if clip_hits(symbols, width, height, c, size.0, area, to) {
        let u = choose|u: int|
            0 <= u < area && stream_bit(symbols, u) == Some(true) && #[trigger] clip_target(
                width,
                height,
                c,
                size.0,
                u,
            ) == to;
        lemma_clip_target(width, height, c, size, t, u);
    }
    if stream_bit(symbols, t) == Some(true) {
        assert(clip_target(width, height, c, size.0, t) == to);
        assert(clip_hits(symbols, width, height, c, size.0, area, to));
    }
}

/// The text of a selection is read as it was written: its size is the size
/// of the selection, and its symbols are those of the cells.
proof fn lemma_copied_text(source: GameState)
    requires
        source.valid(),
        source.selection_size().0 >= 1,
        source.selection_size().1 >= 1,
    ensures
        ({
            let size = source.selection_size();
            let symbols = encoded(
                region_bits(source.cells, source.width, source.height, source.cursor, size),
            );
            &&& symbols.len() == 0 ==> header_spec(source.copied()) == Err::<
                (Option<(int, int)>, int),
                PasteError,
            >(PasteError::NoSymbols)
            &&& symbols.len() > 0 ==> header_spec(source.copied()) is Ok && header_spec(
                source.copied(),
            )->Ok_0.0 == Some(size) && GameState::paste_symbols(source.copied()) == symbols
        }),
{
    let size = source.selection_size();
    let symbols = encoded(
        region_bits(source.cells, source.width, source.height, source.cursor, size),
    );
    lemma_valid_bounds(source);
    lemma_header_round_trip(size.0 as nat, size.1 as nat, symbols);
}

/// Clipboard round trip: the text of a selection, pasted into a selection of
/// the same size whose cells are all dead, gives every cell of it the state
/// of the cell that was copied; a block is pasted as a dead cell. The two
/// sessions need not have grids of one size.
///
/// A selection without a live cell in fewer than six cells has a text
/// without symbols: the paste refuses it, and leaves the dead cells dead.
///
/// Left out are the cells that read an echo: those of a last group of
/// fewer than six cells that are all dead, on which the reader, past the
/// end of the text, reads the first symbol again.
#[verifier::spinoff_prover]
#[verifier::rlimit(40)]
pub proof fn lemma_copy_paste(source: GameState, target: GameState, t: int)
    requires
        source.valid(),
        target.valid(),
        source.selection is Some,
        target.selection == source.selection,
        0 <= t < source.selection_size().0 * source.selection_size().1,
        forall|j: int|
            0 <= j < target.cells.len() && in_rect(
                target.width,
                target.height,
                target.cursor,
                target.selection_size(),
                j,
            ) ==> target.cells[j] == CellState::Dead,
        !echoed(
            region_bits(
                source.cells,
                source.width,
                source.height,
                source.cursor,
                source.selection_size(),
            ),
            t,
        ),
    ensures
        ({
            let size = source.selection_size();
            let from = clip_target(source.width, source.height, source.cursor, size.0, t);
            let to = clip_target(target.width, target.height, target.cursor, size.0, t);
            let pasted = target.pasted(source.copied());
            &&& pasted.cells[to] == (if source.cells[from] == CellState::Alive {
                CellState::Alive
            } else {
                CellState::Dead
            })
            &&& target.paste_result(source.copied()) == (if encoded(
                region_bits(source.cells, source.width, source.height, source.cursor, size),
            ).len() == 0 {
                Err::<(), PasteError>(PasteError::NoSymbols)
            } else {
                Ok::<(), PasteError>(())
            })
        }),
{
    let size = source.selection_size();
    let area = size.0 * size.1;
    let bits = region_bits(source.cells, source.width, source.height, source.cursor, size);
    let symbols = encoded(bits);
    let text = source.copied();
    let w = target.width;
    let h = target.height;
    let c = target.cursor;
    let to = clip_target(w, h, c, size.0, t);
    assert(size.0 >= 1 && size.1 >= 1) by (nonlinear_arith)
        requires
            0 <= t < size.0 * size.1,
            0 <= size.0,
            0 <= size.1,
    ;
    lemma_valid_bounds(target);
    lemma_copied_text(source);
    lemma_round_trip(bits, t);
    lemma_clip_target(w, h, c, size, t, t);
    let cleared = target.filled(CellState::Dead);
    assert(cleared.cells[to] == CellState::Dead);
    if symbols.len() == 0 {
        assert(target.paste_result(text) == Err::<(), PasteError>(PasteError::NoSymbols));
        assert(target.pasted(text) == target);
    } else {
        assert(target.paste_size(text) == size);
        assert forall|u: int| 0 <= u < area implies (#[trigger] stream_bit(symbols, u)) is Some by {
            lemma_encoded_readable(bits, u);
        }
        lemma_readable_all(symbols, area);
        lemma_paste_one_tile(target, symbols, size);
        lemma_pasted_cell(cleared.cells, symbols, w, h, c, size, t);
        assert(target.paste_result(text) == Ok::<(), PasteError>(()));
        assert(target.pasted(text) == target.pasted_symbols(symbols, size));
    }
}

} // verus!
