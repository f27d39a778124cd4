//! What a session is, as a mathematical value, and what each command makes
//! of it. Each method of the executable session is proved to compute one of
//! the functions of this file.

use vstd::prelude::*;
use crate::cell::{CellState, Rgb, black, color_of};
use crate::codec::{
    encoded,
    header_of,
    header_spec,
    readable_cells,
    stream_bit,
    PasteError,
};
use crate::engine::{batch_painted, population, repainted};
use crate::glyphs::DigitStyle;
use crate::life::generations;
use crate::overlay::{
    cursor_drawn,
    cursor_erased,
    cursor_fits,
    selection_end,
    selection_erased,
    MAX_PIXELS,
};
use crate::patterns::{catalog_box, catalog_code, placed_offsets, MacroKind};
use crate::rng::{seeded_word, state_of_word};
use crate::status::{effective_drawn, frame_drawn, info_drawn, macro_drawn, speed_drawn, INFO_HEIGHT};
use crate::torus::{cell_index, wrap};

verus! {

/// Speed of a new session, in generations a second.
pub const DEFAULT_SPEED: i32 = 16;

/// Highest speed, in generations a second.
pub const MAX_SPEED: i32 = 8000;

/// Parts of a generation that the queue counts in: a generation a second
/// adds one part to the queue every nanosecond. A thousand million parts
/// make one generation.
pub const NANOS: u64 = 1_000_000_000;

/// Upper bound of the queue: a sixtieth of the highest speed, in parts.
pub const MAX_QUEUE: u64 = 133_333_333_333;

/// Most generations that one step runs.
pub const MAX_GENERATIONS: u64 = 133;

/// A session, as a mathematical value.
pub struct GameState {
    /// Width of the grid, in cells.
    pub width: int,
    /// Height of the grid, in cells.
    pub height: int,
    /// Width of the window, in device pixels.
    pub window_width: int,
    /// Height of the window, in device pixels.
    pub window_height: int,
    /// The frame: a pixel for each cell, then the status strip.
    pub pixels: Seq<Rgb>,
    /// The style numbers are drawn in.
    pub style: DigitStyle,
    /// The cells, row by row.
    pub cells: Seq<CellState>,
    /// Generations run since the last reset.
    pub generation: int,
    /// The cursor.
    pub cursor: (int, int),
    /// Width and height of the selection, which starts at the cursor.
    pub selection: Option<(int, int)>,
    /// Whether the cursor is hidden.
    pub cursor_hidden: bool,
    /// Whether the simulation stands still.
    pub paused: bool,
    /// Speed asked for, in generations a second.
    pub speed: int,
    /// What is left of a generation after the last step, in parts.
    pub queue: int,
    /// Whether patterns are mirrored in x.
    pub flip_x: bool,
    /// Whether patterns are mirrored in y.
    pub flip_y: bool,
    /// Whether the axes of patterns are swapped.
    pub swap_xy: bool,
}

/// How many columns the cell at index `j` lies to the right of column `x`,
/// edges joined.
pub open spec fn columns_on(width: int, x: int, j: int) -> int {
    wrap(j % width - x, width)
}

/// How many rows the cell at index `j` lies below row `y`, edges joined.
pub open spec fn rows_on(width: int, height: int, y: int, j: int) -> int {
    wrap(j / width - y, height)
}

/// Whether the cell at index `j` lies in the rectangle of `size` whose first
/// cell is `c`, edges joined.
pub open spec fn in_rect(width: int, height: int, c: (int, int), size: (int, int), j: int) -> bool {
    columns_on(width, c.0, j) < size.0 && rows_on(width, height, c.1, j) < size.1
}

/// The grid with every cell of a rectangle set to `state`.
pub open spec fn rect_set(
    cells: Seq<CellState>,
    width: int,
    height: int,
    c: (int, int),
    size: (int, int),
    state: CellState,
) -> Seq<CellState> {
    Seq::new(
        cells.len(),
        |j: int|
            if in_rect(width, height, c, size, j) {
                state
            } else {
                cells[j]
            },
    )
}

/// The frame with every cell of a rectangle shown in `state`.
pub open spec fn rect_painted(
    pixels: Seq<Rgb>,
    width: int,
    height: int,
    c: (int, int),
    size: (int, int),
    state: CellState,
) -> Seq<Rgb> {
    Seq::new(
        pixels.len(),
        |j: int|
            if j < width * height && in_rect(width, height, c, size, j) {
                color_of(state)
            } else {
                pixels[j]
            },
    )
}

/// The frame with every cell shown as it is.
pub open spec fn all_painted(pixels: Seq<Rgb>, cells: Seq<CellState>) -> Seq<Rgb> {
    Seq::new(
        pixels.len(),
        |j: int|
            if j < cells.len() {
                color_of(cells[j])
            } else {
                pixels[j]
            },
    )
}

/// The grid that a random fill with `seed` makes: cell `i` is alive where
/// the `i`-th word of the seeded generator is odd, and dead where it is even.
pub open spec fn random_cells(seed: u64, n: nat) -> Seq<CellState> {
    Seq::new(n, |i: int| state_of_word(seeded_word(seed, i as nat)))
}

/// Index of the cell that the `m`-th of `offsets` names, counted from `c`.
pub open spec fn stamp_target(
    width: int,
    height: int,
    c: (int, int),
    offsets: Seq<(int, int)>,
    m: int,
) -> int {
    cell_index(width, height, c.0 + offsets[m].0, c.1 + offsets[m].1)
}

/// Whether one of the first `n` of `offsets` names the cell at index `j`.
pub open spec fn stamp_hits(
    width: int,
    height: int,
    c: (int, int),
    offsets: Seq<(int, int)>,
    n: int,
    j: int,
) -> bool {
    exists|m: int| 0 <= m < n && #[trigger] stamp_target(width, height, c, offsets, m) == j
}

/// The grid with the cells that the first `n` of `offsets` name set alive.
/// No other cell changes.
pub open spec fn stamped(
    cells: Seq<CellState>,
    width: int,
    height: int,
    c: (int, int),
    offsets: Seq<(int, int)>,
    n: int,
) -> Seq<CellState> {
    Seq::new(
        cells.len(),
        |j: int|
            if stamp_hits(width, height, c, offsets, n, j) {
                CellState::Alive
            } else {
                cells[j]
            },
    )
}

/// Index of the cell that takes bit `t` of a rectangle `across` cells wide
/// whose first cell is `c`.
pub open spec fn clip_target(width: int, height: int, c: (int, int), across: int, t: int) -> int {
    cell_index(width, height, c.0 + t % across, c.1 + t / across)
}

/// Whether one of the first `n` bits of `symbols` is set and falls on the
/// cell at index `j`.
pub open spec fn clip_hits(
    symbols: Seq<u8>,
    width: int,
    height: int,
    c: (int, int),
    across: int,
    n: int,
    j: int,
) -> bool {
    exists|t: int|
        0 <= t < n && stream_bit(symbols, t) == Some(true) && #[trigger] clip_target(
            width,
            height,
            c,
            across,
            t,
        ) == j
}

/// The grid with the first `n` bits of `symbols` pasted into the rectangle
/// `across` cells wide whose first cell is `c`: a set bit sets its cell
/// alive, a clear bit leaves it as it is.
pub open spec fn clip_pasted(
    cells: Seq<CellState>,
    symbols: Seq<u8>,
    width: int,
    height: int,
    c: (int, int),
    across: int,
    n: int,
) -> Seq<CellState> {
    Seq::new(
        cells.len(),
        |j: int|
            if clip_hits(symbols, width, height, c, across, n, j) {
                CellState::Alive
            } else {
                cells[j]
            },
    )
}

/// First cell of the `k`-th tile of a paste, `across` tiles to a row.
pub open spec fn tile_origin(c: (int, int), size: (int, int), across: int, k: int) -> (int, int) {
    (c.0 + (k % across) * size.0, c.1 + (k / across) * size.1)
}

/// The grid with the first `k` tiles pasted.
pub open spec fn tiles_pasted(
    cells: Seq<CellState>,
    symbols: Seq<u8>,
    width: int,
    height: int,
    c: (int, int),
    size: (int, int),
    across: int,
    k: int,
) -> Seq<CellState>
    decreases k,
{
    if k <= 0 {
        cells
    } else {
        clip_pasted(
            tiles_pasted(cells, symbols, width, height, c, size, across, k - 1),
            symbols,
            width,
            height,
            tile_origin(c, size, across, k - 1),
            size.0,
            size.0 * size.1,
        )
    }
}

/// The bits of the rectangle of `size` whose first cell is `c`, row by row:
/// a bit is set where the cell is alive.
pub open spec fn region_bits(
    cells: Seq<CellState>,
    width: int,
    height: int,
    c: (int, int),
    size: (int, int),
) -> Seq<bool> {
    Seq::new(
        (size.0 * size.1) as nat,
        |t: int| cells[clip_target(width, height, c, size.0, t)] == CellState::Alive,
    )
}

/// Quotient of `a` by `b`, rounded towards zero, for `b > 0`.
pub open spec fn quotient(a: int, b: int) -> int {
    if a >= 0 {
        a / b
    } else {
        -((-a) / b)
    }
}

/// `v` held to the range of an `i32`.
pub open spec fn held(v: int) -> int {
    if v < i32::MIN {
        i32::MIN as int
    } else if v > i32::MAX {
        i32::MAX as int
    } else {
        v
    }
}

/// `speed` held to the speeds a session can run at.
pub open spec fn clamped_speed(speed: int) -> int {
    if speed < 1 {
        1
    } else if speed > MAX_SPEED {
        MAX_SPEED as int
    } else {
        speed
    }
}

impl GameState {
    /// What holds of every session.
    pub open spec fn valid(self) -> bool {
        &&& 0 < self.width
        &&& 0 < self.height
        &&& self.width * (self.height + INFO_HEIGHT) <= MAX_PIXELS
        &&& self.cells.len() == self.width * self.height
        &&& self.pixels.len() == self.width * (self.height + INFO_HEIGHT)
        &&& 0 < self.window_width <= i32::MAX
        &&& 0 < self.window_height <= i32::MAX
        &&& 0 <= self.generation <= u64::MAX
        &&& cursor_fits(self.width, self.height, self.cursor, self.selection)
        &&& 1 <= self.speed <= MAX_SPEED
        &&& 0 <= self.queue < NANOS
    }

    /// Index of the cell that `(x, y)` names.
    pub open spec fn index(self, x: int, y: int) -> int {
        cell_index(self.width, self.height, x, y)
    }

    /// State of the cell that `(x, y)` names.
    pub open spec fn cell(self, x: int, y: int) -> CellState {
        self.cells[self.index(x, y)]
    }

    /// Size of the selection; that of the grid where nothing is selected.
    pub open spec fn selection_size(self) -> (int, int) {
        match self.selection {
            Some(size) => size,
            None => (self.width, self.height),
        }
    }

    /// The far corner of the selection.
    pub open spec fn end(self) -> (int, int) {
        selection_end(self.width, self.height, self.cursor, self.selection)
    }

    /// Number of live cells.
    pub open spec fn population(self) -> nat {
        population(self.cells)
    }

    /// The session with the cursor and the selection marks drawn.
    pub open spec fn cursor_shown(self) -> GameState {
        GameState {
            pixels: cursor_drawn(
                self.pixels,
                self.cells,
                self.width,
                self.height,
                self.cursor,
                self.selection,
                self.cursor_hidden,
            ),
            ..self
        }
    }

    /// The session with the selection marks taken off the frame.
    pub open spec fn selection_hidden(self) -> GameState {
        GameState {
            pixels: selection_erased(
                self.pixels,
                self.cells,
                self.width,
                self.height,
                self.cursor,
                self.selection,
            ),
            ..self
        }
    }

    /// The session with the cursor and the selection marks taken off the
    /// frame.
    pub open spec fn cursor_unshown(self) -> GameState {
        GameState {
            pixels: cursor_erased(
                self.pixels,
                self.cells,
                self.width,
                self.height,
                self.cursor,
                self.selection,
            ),
            ..self
        }
    }

    /// The session with the generation and the population shown.
    pub open spec fn info_shown(self) -> GameState {
        GameState {
            pixels: info_drawn(
                self.pixels,
                self.width,
                self.height,
                self.style,
                self.generation,
                self.population() as int,
            ),
            ..self
        }
    }

    /// The session with the transform shown.
    pub open spec fn macro_shown(self) -> GameState {
        GameState {
            pixels: macro_drawn(
                self.pixels,
                self.width,
                self.height,
                self.swap_xy,
                self.flip_x,
                self.flip_y,
            ),
            ..self
        }
    }

    /// The session with other cells: the pixel of every cell that differs
    /// shows its new state.
    pub open spec fn with_cells(self, cells: Seq<CellState>) -> GameState {
        GameState { cells, pixels: repainted(self.pixels, self.cells, cells), ..self }
    }

    /// A new session on a grid of `width` by `height` cells: all cells dead,
    /// the cursor in the first cell, nothing selected, paused.
    pub open spec fn blank(width: int, height: int, style: DigitStyle) -> GameState {
        GameState {
            width,
            height,
            window_width: width,
            window_height: height + INFO_HEIGHT,
            pixels: Seq::new((width * (height + INFO_HEIGHT)) as nat, |j: int| black()),
            style,
            cells: Seq::new((width * height) as nat, |j: int| CellState::Dead),
            generation: 0,
            cursor: (0, 0),
            selection: None,
            cursor_hidden: false,
            paused: true,
            speed: DEFAULT_SPEED as int,
            queue: 0,
            flip_x: false,
            flip_y: false,
            swap_xy: false,
        }
    }

    /// A new session with its frame drawn, filled at random if `seed` is
    /// not 0.
    pub open spec fn started(width: int, height: int, seed: u64, style: DigitStyle) -> GameState {
        let blank = GameState::blank(width, height, style);
        let framed = GameState {
            pixels: frame_drawn(blank.pixels, width, height, style),
            ..blank
        };
        let shown = framed.info_shown().with_speed(
            DEFAULT_SPEED as int,
        ).macro_shown().cursor_shown();
        if seed != 0 {
            shown.randomized(seed)
        } else {
            shown
        }
    }

    /// The session with the cell at `(x, y)` set to `state`.
    pub open spec fn with_cell(self, x: int, y: int, state: CellState) -> GameState {
        self.with_cells(self.cells.update(self.index(x, y), state))
    }

    /// The session with every cell of the selection set to `state` and shown
    /// so; the whole grid where nothing is selected.
    pub open spec fn filled(self, state: CellState) -> GameState {
        GameState {
            cells: rect_set(
                self.cells,
                self.width,
                self.height,
                self.cursor,
                self.selection_size(),
                state,
            ),
            pixels: rect_painted(
                self.pixels,
                self.width,
                self.height,
                self.cursor,
                self.selection_size(),
                state,
            ),
            ..self
        }
    }

    /// The session filled at random from `seed`, at generation 0.
    pub open spec fn randomized(self, seed: u64) -> GameState {
        let cells = random_cells(seed, self.cells.len());
        GameState {
            cells,
            pixels: all_painted(self.pixels, cells),
            generation: 0,
            ..self
        }.info_shown().cursor_shown()
    }

    /// The session with all cells dead, at generation 0.
    pub open spec fn reset(self) -> GameState {
        let cells = Seq::new(self.cells.len(), |j: int| CellState::Dead);
        GameState {
            cells,
            pixels: all_painted(self.pixels, cells),
            generation: 0,
            ..self
        }.cursor_shown()
    }

    /// The session with the cursor moved to `(x, y)`, folded into the grid.
    /// The selection goes unless `keep_selection` is set.
    pub open spec fn moved(self, x: int, y: int, keep_selection: bool) -> GameState {
        GameState {
            cursor: (wrap(x, self.width), wrap(y, self.height)),
            selection: if keep_selection {
                self.selection
            } else {
                None
            },
            ..self.cursor_unshown()
        }.cursor_shown()
    }

    /// The session with the selection `selection`.
    pub open spec fn reselected(self, selection: Option<(int, int)>) -> GameState {
        GameState { selection, ..self.selection_hidden() }.cursor_shown()
    }

    /// The session with a selection of `w` by `h` cells, each folded into
    /// the grid.
    pub open spec fn selected(self, w: int, h: int) -> GameState {
        self.reselected(Some((wrap(w, self.width), wrap(h, self.height))))
    }

    /// The session at speed `speed`, held between 1 and the highest speed.
    pub open spec fn with_speed(self, speed: int) -> GameState {
        GameState {
            speed: clamped_speed(speed),
            pixels: speed_drawn(
                self.pixels,
                self.width,
                self.height,
                self.style,
                clamped_speed(speed),
            ),
            ..self
        }
    }

    /// The offsets, from the cursor, of the cells that a pattern marks under
    /// the transform of the session.
    pub open spec fn offsets(self, code: Seq<u8>, w: int, h: int) -> Seq<(int, int)> {
        placed_offsets(code, w, h, self.swap_xy, self.flip_x, self.flip_y)
    }

    /// The session with a pattern placed at the cursor: the cells it marks
    /// are alive, no other cell changes.
    pub open spec fn placed(self, code: Seq<u8>, w: int, h: int) -> GameState {
        let offsets = self.offsets(code, w, h);
        self.with_cells(
            stamped(
                self.cells,
                self.width,
                self.height,
                self.cursor,
                offsets,
                offsets.len() as int,
            ),
        ).info_shown().cursor_shown()
    }

    /// The session with a pattern of the catalog placed at the cursor.
    pub open spec fn placed_kind(self, kind: MacroKind) -> GameState {
        self.placed(catalog_code(kind), catalog_box(kind).0, catalog_box(kind).1)
    }

    /// The cell under a pointer at `(px, py)` of the window: the position
    /// scaled from the size of the window to the size of the frame, rounded
    /// towards zero.
    pub open spec fn pointed(self, px: int, py: int) -> (int, int) {
        (
            held(quotient(px * self.width, self.window_width)),
            held(quotient(py * (self.height + INFO_HEIGHT), self.window_height)),
        )
    }

    /// The session in a window of `w` by `h` device pixels. A size that is
    /// not positive is not taken.
    pub open spec fn resized(self, w: int, h: int) -> GameState {
        if w > 0 && h > 0 {
            GameState { window_width: w, window_height: h, ..self }
        } else {
            self
        }
    }

    /// The queue after `elapsed` nanoseconds, before any generation is taken
    /// from it: what was left, and the speed for every nanosecond, held to
    /// the upper bound.
    pub open spec fn due(self, elapsed: int) -> int {
        let total = self.queue + elapsed * self.speed;
        if total > MAX_QUEUE {
            MAX_QUEUE as int
        } else {
            total
        }
    }

    /// Number of generations that a step runs after `elapsed` nanoseconds.
    pub open spec fn generations_due(self, elapsed: int) -> nat {
        if self.paused {
            0
        } else {
            (self.due(elapsed) / (NANOS as int)) as nat
        }
    }

    /// The session after a step that comes `elapsed` nanoseconds after the
    /// last: the whole generations of the queue are run, the rest stays in
    /// the queue. A paused session stays as it is.
    pub open spec fn advanced(self, elapsed: int) -> GameState {
        let n = self.generations_due(elapsed);
        if self.paused {
            self
        } else if n == 0 {
            GameState { queue: self.due(elapsed), ..self }
        } else {
            GameState {
                cells: generations(self.cells, self.width, self.height, n),
                pixels: batch_painted(self.pixels, self.cells, self.width, self.height, n),
                generation: (self.generation + n) % 0x1_0000_0000_0000_0000,
                queue: self.due(elapsed) % (NANOS as int),
                ..self
            }.info_shown().cursor_shown()
        }
    }

    /// The speed reached by a step that ran `generations` generations in
    /// `busy` nanoseconds, in whole generations a second; the highest number
    /// there is for a step that took no time.
    pub open spec fn reached(generations: int, busy: int) -> int {
        if busy <= 0 {
            i32::MAX as int
        } else {
            held(generations * NANOS / busy)
        }
    }

    /// The session with the speed reached shown, if it is below the speed
    /// asked for.
    pub open spec fn speed_reported(self, generations: int, busy: int) -> GameState {
        GameState {
            pixels: effective_drawn(
                self.pixels,
                self.width,
                self.height,
                self.style,
                GameState::reached(generations, busy),
                self.speed,
            ),
            ..self
        }
    }

    /// The session after a step that comes `elapsed` nanoseconds after the
    /// last and takes `busy` nanoseconds: the generations that are due are
    /// run, and if any was run, the speed reached is reported.
    pub open spec fn ticked(self, elapsed: int, busy: int) -> GameState {
        let n = self.generations_due(elapsed);
        if n == 0 {
            self.advanced(elapsed)
        } else {
            self.advanced(elapsed).speed_reported(n as int, busy)
        }
    }

    /// The text of the selection; of the whole grid where nothing is
    /// selected.
    pub open spec fn copied(self) -> Seq<u8> {
        let size = self.selection_size();
        header_of(size.0 as nat, size.1 as nat) + encoded(
            region_bits(self.cells, self.width, self.height, self.cursor, size),
        )
    }

    /// Number of tiles of `size` that fit into the selection side by side.
    pub open spec fn tiles_across(self, size: (int, int)) -> int {
        self.selection_size().0 / size.0
    }

    /// Number of rows of tiles of `size` that fit into the selection.
    pub open spec fn tiles_down(self, size: (int, int)) -> int {
        self.selection_size().1 / size.1
    }

    /// The session after a paste of `symbols`, which stand for a rectangle
    /// of `size`.
    ///
    /// With a selection, the selection is cleared and filled with as many
    /// whole tiles as fit. Without, the rectangle at the cursor is cleared
    /// and takes the pattern, and becomes the selection, unless it is the
    /// size of the grid; a selection is never larger than the grid.
    ///
    /// Where a symbol that a cell has to read is not of the alphabet, the
    /// paste stops there: the cells before it stay pasted, and of several
    /// tiles only the first is begun.
    pub open spec fn pasted_symbols(self, symbols: Seq<u8>, size: (int, int)) -> GameState {
        let area = size.0 * size.1;
        let good = readable_cells(symbols, area);
        if self.selection is Some {
            let cleared = self.filled(CellState::Dead);
            let across = self.tiles_across(size);
            let tiles = across * self.tiles_down(size);
            let cells = if tiles <= 0 {
                cleared.cells
            } else if good < area {
                clip_pasted(
                    cleared.cells,
                    symbols,
                    self.width,
                    self.height,
                    self.cursor,
                    size.0,
                    good,
                )
            } else {
                tiles_pasted(
                    cleared.cells,
                    symbols,
                    self.width,
                    self.height,
                    self.cursor,
                    size,
                    across,
                    tiles,
                )
            };
            cleared.with_cells(cells).cursor_shown()
        } else {
            let fitted = (if size.0 < self.width {
                size.0
            } else {
                self.width
            }, if size.1 < self.height {
                size.1
            } else {
                self.height
            });
            let cleared = GameState { selection: Some(fitted), ..self }.filled(
                CellState::Dead,
            ).selection_hidden();
            let framed = GameState {
                selection: if size == (self.width, self.height) {
                    None
                } else {
                    Some(fitted)
                },
                ..cleared
            };
            framed.with_cells(
                clip_pasted(
                    framed.cells,
                    symbols,
                    self.width,
                    self.height,
                    self.cursor,
                    size.0,
                    good,
                ),
            ).cursor_shown()
        }
    }

    /// Whether a paste of `symbols` for a rectangle of `size` meets a symbol
    /// that is not of the alphabet.
    pub open spec fn paste_stops(self, symbols: Seq<u8>, size: (int, int)) -> bool {
        readable_cells(symbols, size.0 * size.1) < size.0 * size.1 && (self.selection is Some
            ==> self.tiles_across(size) * self.tiles_down(size) > 0)
    }

    /// The size of the rectangle that `text` stands for: that of its
    /// header, and that of the selection where it has none.
    pub open spec fn paste_size(self, text: Seq<u8>) -> (int, int) {
        match header_spec(text) {
            Ok((Some(size), _)) => size,
            _ => self.selection_size(),
        }
    }

    /// The symbols of `text`: what follows its header.
    pub open spec fn paste_symbols(text: Seq<u8>) -> Seq<u8> {
        match header_spec(text) {
            Ok((_, start)) => text.subrange(start, text.len() as int),
            Err(_) => text,
        }
    }

    /// What a paste of `text` reports: why the text is refused, or that it
    /// met a symbol that is not of the alphabet, or success. A text that
    /// stands for a rectangle without a cell is refused.
    pub open spec fn paste_result(self, text: Seq<u8>) -> Result<(), PasteError> {
        match header_spec(text) {
            Ok(_) => if self.paste_size(text).0 <= 0 || self.paste_size(text).1 <= 0 {
                Err(PasteError::EmptySize)
            } else if self.paste_stops(GameState::paste_symbols(text), self.paste_size(text)) {
                Err(PasteError::InvalidSymbol)
            } else {
                Ok(())
            },
            Err(e) => Err(e),
        }
    }

    /// The session after a paste of `text`. A text that is refused changes
    /// nothing.
    pub open spec fn pasted(self, text: Seq<u8>) -> GameState {
        match self.paste_result(text) {
            Err(PasteError::InvalidSymbol) | Ok(_) => self.pasted_symbols(
                GameState::paste_symbols(text),
                self.paste_size(text),
            ),
            Err(_) => self,
        }
    }

    /// The session with the cell at the cursor alive if it was not, and
    /// dead if it was.
    pub open spec fn cell_toggled(self) -> GameState {
        self.with_cell(
            self.cursor.0,
            self.cursor.1,
            if self.cell(self.cursor.0, self.cursor.1) == CellState::Alive {
                CellState::Dead
            } else {
                CellState::Alive
            },
        )
    }

    /// The session with the selection filled with blocks; without a
    /// selection, with the cell at the cursor a block if it was none, and
    /// dead if it was one.
    pub open spec fn block_toggled(self) -> GameState {
        if self.selection is Some {
            self.filled(CellState::Block).cursor_shown()
        } else {
            self.with_cell(
                self.cursor.0,
                self.cursor.1,
                if self.cell(self.cursor.0, self.cursor.1) == CellState::Block {
                    CellState::Dead
                } else {
                    CellState::Block
                },
            )
        }
    }

    /// The session with the selection cleared; without a selection, the
    /// session reset if `reset` is set, and left alone if not.
    pub open spec fn cleared(self, reset: bool) -> GameState {
        if self.selection is Some {
            self.filled(CellState::Dead).cursor_shown()
        } else if reset {
            self.reset()
        } else {
            self
        }
    }

    /// The session with the cursor hidden if it was shown, and shown if it
    /// was hidden.
    pub open spec fn cursor_toggled(self) -> GameState {
        let turned = GameState { cursor_hidden: !self.cursor_hidden, ..self };
        if turned.cursor_hidden {
            turned.cursor_unshown()
        } else {
            turned.cursor_shown()
        }
    }

    /// The session paused if it ran, and running if it was paused.
    pub open spec fn pause_toggled(self) -> GameState {
        GameState { paused: !self.paused, ..self }
    }

    /// The session with other flags of the transform.
    pub open spec fn with_transform(self, swap_xy: bool, flip_x: bool, flip_y: bool) -> GameState {
        GameState { swap_xy, flip_x, flip_y, ..self }.macro_shown()
    }

    /// The whole number of times that the grid fits into the window, made
    /// larger or smaller by one and not below one.
    pub open spec fn scale(self, up: bool) -> int {
        let now = self.window_width / self.width;
        if up {
            now + 1
        } else if now - 1 < 1 {
            1
        } else {
            now - 1
        }
    }

    /// Size of the window at that scale, each side held to an `u32`.
    pub open spec fn scaled_window(self, up: bool) -> (int, int) {
        (
            held_u32(self.scale(up) * self.width),
            held_u32(self.scale(up) * (self.height + INFO_HEIGHT)),
        )
    }
}

/// `v` held to the range of an `u32`, for `v >= 0`.
pub open spec fn held_u32(v: int) -> int {
    if v > u32::MAX {
        u32::MAX as int
    } else {
        v
    }
}

/// The sides of a valid session's grid are within the limits of the
/// drawing functions.
pub proof fn lemma_valid_bounds(s: GameState)
    requires
        s.valid(),
    ensures
        0 < s.width <= crate::overlay::MAX_SIDE,
        0 < s.height <= crate::overlay::MAX_SIDE,
        s.width * s.height <= MAX_PIXELS,
        s.height + INFO_HEIGHT <= MAX_PIXELS,
{
    let w = s.width;
    let h = s.height;
    assert(w * (h + INFO_HEIGHT) == w * h + w * 22) by (nonlinear_arith);
    assert(w * h >= h && w * h >= w) by (nonlinear_arith)
        requires
            w >= 1,
            h >= 1,
    ;
    assert(w * 22 >= 22) by (nonlinear_arith)
        requires
            w >= 1,
    ;
    assert(w * (h + INFO_HEIGHT) >= h + INFO_HEIGHT) by (nonlinear_arith)
        requires
            w >= 1,
            h >= 1,
    ;
}

/// Generation-queue clamp: a running session whose queue comes to the upper
/// bound or above runs exactly 133 generations in that step, and keeps the
/// third of a generation that the bound holds beyond them.
pub proof fn lemma_queue_clamp(s: GameState, elapsed: int)
    requires
        s.valid(),
        !s.paused,
        elapsed >= 0,
        s.queue + elapsed * s.speed >= MAX_QUEUE,
    ensures
        s.generations_due(elapsed) == MAX_GENERATIONS,
        s.advanced(elapsed).cells == generations(s.cells, s.width, s.height, MAX_GENERATIONS as nat),
        s.advanced(elapsed).generation == (s.generation + MAX_GENERATIONS) % 0x1_0000_0000_0000_0000,
        s.advanced(elapsed).queue == MAX_QUEUE - MAX_GENERATIONS * NANOS,
{
}

/// A step runs the whole generations that have come due, and no more than
/// 133: a paused session runs none.
pub proof fn lemma_generations_due(s: GameState, elapsed: int)
    requires
        s.valid(),
        elapsed >= 0,
    ensures
        s.generations_due(elapsed) <= MAX_GENERATIONS,
        s.advanced(elapsed).cells == generations(
            s.cells,
            s.width,
            s.height,
            s.generations_due(elapsed),
        ),
        !s.paused && s.queue + elapsed * s.speed <= MAX_QUEUE ==> s.generations_due(elapsed) == (
        s.queue + elapsed * s.speed) / (NANOS as int),
{
    assert(elapsed * s.speed >= 0) by (nonlinear_arith)
        requires
            elapsed >= 0,
            s.speed >= 1,
    ;
}

} // verus!
