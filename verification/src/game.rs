//! The session: the grid, the list of its live cells, the cursor and the
//! selection, the frame, and the commands that change them.

use vstd::prelude::*;
use std::time::Instant;
use crate::cell::{channel_bytes, component_bytes, CellState, Rgb, black, cell_color};
use crate::clock::{nanos_since, now};
use crate::codec::{encode_bits, parse_header, write_header, lemma_readable_range, PasteError};
use crate::engine::{
    alive_matches,
    collect_alive,
    forget_alive,
    repainted,
    run_generations,
    lemma_alive_population,
};
use crate::glyphs::DigitStyle;
use crate::life::{generations, lemma_generations_len};
use crate::neighbors::{generate_neighbors, is_neighbor_table};
use crate::overlay::{
    draw_cursor,
    erase_cursor,
    erase_selection,
    far_corner,
    grid_fits,
    MAX_PIXELS,
    MAX_SIDE,
};
use crate::patterns::{catalog_entry, pattern_offsets, span, MacroKind};
use crate::region::{fill_cells, pairs, paste_clip, paste_tiles, random_fill, read_bits, stamp};
use crate::rng::random_word;
use crate::state::{
    all_painted,
    held,
    GameState,
    DEFAULT_SPEED,
    MAX_GENERATIONS,
    MAX_QUEUE,
    MAX_SPEED,
    NANOS,
};
use crate::status::{
    draw_effective,
    draw_frame,
    draw_info,
    draw_macro,
    draw_speed,
    INFO_HEIGHT,
};
use crate::torus::{coord_index, wrap_coord};

verus! {

/// A session.
pub struct Game {
    width: i32,
    height: i32,
    window_width: i32,
    window_height: i32,
    pixels: Vec<Rgb>,
    style: DigitStyle,
    cells: Vec<CellState>,
    neighbors: Vec<[usize; 8]>,
    alive_cells: Vec<usize>,
    generation: u64,
    cursor_pos: (i32, i32),
    selection: Option<(i32, i32)>,
    cursor_hidden: bool,
    paused: bool,
    speed: i32,
    instant: Instant,
    gen_queue: u64,
    macro_flip_x: bool,
    macro_flip_y: bool,
    macro_swap_xy: bool,
}

/// A pair of coordinates as a pair of integers.
pub open spec fn pair(p: (i32, i32)) -> (int, int) {
    (p.0 as int, p.1 as int)
}

/// A selection as a pair of integers, if there is one.
pub open spec fn pair_opt(p: Option<(i32, i32)>) -> Option<(int, int)> {
    match p {
        Some(q) => Some(pair(q)),
        None => None,
    }
}

impl View for Game {
    type V = GameState;

    closed spec fn view(&self) -> GameState {
        GameState {
            width: self.width as int,
            height: self.height as int,
            window_width: self.window_width as int,
            window_height: self.window_height as int,
            pixels: self.pixels@,
            style: self.style,
            cells: self.cells@,
            generation: self.generation as int,
            cursor: pair(self.cursor_pos),
            selection: pair_opt(self.selection),
            cursor_hidden: self.cursor_hidden,
            paused: self.paused,
            speed: self.speed as int,
            queue: self.gen_queue as int,
            flip_x: self.macro_flip_x,
            flip_y: self.macro_flip_y,
            swap_xy: self.macro_swap_xy,
        }
    }
}

impl Game {
    /// The list of live cells that the session keeps.
    pub closed spec fn alive(&self) -> Seq<usize> {
        self.alive_cells@
    }

    /// What holds of a session between any two commands.
    pub closed spec fn wf(&self) -> bool {
        &&& self@.valid()
        &&& is_neighbor_table(self.neighbors@, self.width as int, self.height as int)
        &&& alive_matches(self.alive_cells@, self.cells@)
    }

    /// A session is valid, and its list of live cells holds the live cells
    /// of the grid, each of them once, and no other cell.
    pub proof fn lemma_wf(&self)
        requires
            self.wf(),
        ensures
            self@.valid(),
            alive_matches(self.alive(), self@.cells),
            self.alive().no_duplicates(),
            self.alive().to_set() == crate::engine::live_set(self@.cells),
            self.alive().len() == self@.population(),
    {
        lemma_alive_population(self.alive_cells@, self.cells@);
    }

    proof fn lemma_fits(&self)
        requires
            self@.valid(),
        ensures
            grid_fits(self.pixels@, self.cells@, self.width as int, self.height as int),
            0 < self.width <= MAX_SIDE,
            0 < self.height <= MAX_SIDE,
            self.width * self.height <= MAX_PIXELS,
            self.height + INFO_HEIGHT <= MAX_PIXELS,
    {
        let w = self.width as int;
        let h = self.height as int;
        assert(w * (h + INFO_HEIGHT) == w * h + w * 22) by (nonlinear_arith);
        assert(w * h >= h && w * h >= w) by (nonlinear_arith)
            requires
                w >= 1,
                h >= 1,
        ;
        assert(w * 22 >= 22) by (nonlinear_arith)
            requires
                w >= 1,
        ;
        assert(w * (h + INFO_HEIGHT) >= h + INFO_HEIGHT) by (nonlinear_arith)
            requires
                w >= 1,
                h >= 1,
        ;
    }

    /// Width of the grid, in cells.
    pub fn width(&self) -> (w: i32)
        ensures
            w == self@.width,
    {
        self.width
    }

    /// Height of the grid, in cells.
    pub fn height(&self) -> (h: i32)
        ensures
            h == self@.height,
    {
        self.height
    }

    /// The cells, row by row.
    pub fn cells(&self) -> (cells: &Vec<CellState>)
        ensures
            cells@ == self@.cells,
    {
        &self.cells
    }

    /// The frame: a pixel for each cell, row by row, then the status strip.
    pub fn pixels(&self) -> (pixels: &Vec<Rgb>)
        ensures
            pixels@ == self@.pixels,
    {
        &self.pixels
    }

    /// The frame as bytes for a texture of three bytes to a pixel: red,
    /// green and blue.
    pub fn frame_bytes(&self) -> (bytes: Vec<u8>)
        ensures
            bytes@ == channel_bytes(self@.pixels),
    {
        component_bytes(&self.pixels)
    }

    /// The live cells, in no particular order.
    pub fn alive_cells(&self) -> (alive: &Vec<usize>)
        ensures
            alive@ == self.alive(),
    {
        &self.alive_cells
    }

    /// Generations run since the last reset.
    pub fn generation(&self) -> (generation: u64)
        ensures
            generation == self@.generation,
    {
        self.generation
    }

    /// Number of live cells.
    pub fn population(&self) -> (count: usize)
        requires
            self.wf(),
        ensures
            count == self@.population(),
    {
        proof {
            lemma_alive_population(self.alive_cells@, self.cells@);
        }
        self.alive_cells.len()
    }

    /// The cursor.
    pub fn cursor(&self) -> (c: (i32, i32))
        ensures
            pair(c) == self@.cursor,
    {
        self.cursor_pos
    }

    /// Width and height of the selection, if there is one.
    pub fn selection(&self) -> (s: Option<(i32, i32)>)
        ensures
            pair_opt(s) == self@.selection,
    {
        self.selection
    }

    /// Whether the simulation stands still.
    pub fn is_paused(&self) -> (paused: bool)
        ensures
            paused == self@.paused,
    {
        self.paused
    }

    /// Speed asked for, in generations a second.
    pub fn speed(&self) -> (speed: i32)
        ensures
            speed == self@.speed,
    {
        self.speed
    }

    /// Size of the window, in device pixels.
    pub fn window_size(&self) -> (size: (i32, i32))
        ensures
            pair(size) == (self@.window_width, self@.window_height),
    {
        (self.window_width, self.window_height)
    }

    /// Whether the cursor is hidden.
    pub fn is_cursor_hidden(&self) -> (hidden: bool)
        ensures
            hidden == self@.cursor_hidden,
    {
        self.cursor_hidden
    }

    /// The flags of the transform: whether the axes of patterns are
    /// swapped, and whether patterns are mirrored in x and in y.
    pub fn transform(&self) -> (flags: (bool, bool, bool))
        ensures
            flags == (self@.swap_xy, self@.flip_x, self@.flip_y),
    {
        (self.macro_swap_xy, self.macro_flip_x, self.macro_flip_y)
    }

    /// The style numbers are drawn in.
    pub fn style(&self) -> (style: DigitStyle)
        ensures
            style == self@.style,
    {
        self.style
    }

    /// Storage index of the cell that `(x, y)` names, for any integers.
    pub fn coord_index(&self, x: i32, y: i32) -> (i: usize)
        requires
            self.wf(),
        ensures
            i == self@.index(x as int, y as int),
            i < self@.cells.len(),
    {
        proof {
            self.lemma_fits();
        }
        coord_index(self.width, self.height, x, y)
    }

    /// Size of the selection; that of the grid where nothing is selected.
    pub fn get_selection(&self) -> (size: (i32, i32))
        ensures
            pair(size) == self@.selection_size(),
    {
        match self.selection {
            Some(size) => size,
            None => (self.width, self.height),
        }
    }

    /// The far corner of the selection: the last cell of its last row,
    /// counted on from the cursor and not folded into the grid.
    pub fn get_selection_end(&self) -> (end: (i32, i32))
        requires
            self.wf(),
        ensures
            pair(end) == self@.end(),
    {
        proof {
            self.lemma_fits();
        }
        far_corner(self.width, self.height, self.cursor_pos, self.selection)
    }

    /// State of the cell that `(x, y)` names.
    pub fn get_cell(&self, x: i32, y: i32) -> (state: CellState)
        requires
            self.wf(),
        ensures
            state == self@.cell(x as int, y as int),
    {
        let i: usize = self.coord_index(x, y);
        self.cells[i]
    }

    /// Sets the cell that `(x, y)` names to `state`. The list of live cells
    /// and the pixel of the cell follow; a cell that is in that state
    /// already is left alone.
    pub fn set_cell(&mut self, x: i32, y: i32, state: CellState)
        requires
            old(self).wf(),
        ensures
            final(self).wf(),
            final(self)@ == old(self)@.with_cell(x as int, y as int, state),
    {
        let i: usize = self.coord_index(x, y);
        let ghost before = self.cells@;
        proof {
            self.lemma_fits();
        }
        if self.cells[i] == state {
            assert(before.update(i as int, state) =~= before);
            assert(self.pixels@ =~= repainted(self.pixels@, before, before));
            return ;
        }
        if self.cells[i] == CellState::Alive {
            forget_alive(&mut self.alive_cells, i);
        } else if state == CellState::Alive {
            self.alive_cells.push(i);
        }
        let ghost listed = self.alive_cells@;
        self.cells[i] = state;
        self.pixels[i] = cell_color(state);
        proof {
            assert(self.pixels@ =~= repainted(old(self).pixels@, before, self.cells@));
            let was = old(self).alive_cells@;
            assert forall|j: int|
                0 <= j < self.cells@.len() && (#[trigger] self.cells@[j])
                    == CellState::Alive implies listed.contains(j as usize) by {
                if j == i {
                    assert(listed[listed.len() - 1] == i);
                } else {
                    assert(before[j] == CellState::Alive);
                    assert(was.contains(j as usize));
                    if before[i as int] == CellState::Alive {
                        assert(listed.contains(j as usize));
                    } else if state == CellState::Alive {
                        let p = choose|p: int| 0 <= p < was.len() && was[p] == j as usize;
                        assert(listed[p] == j as usize);
                    } else {
                        assert(listed == was);
                    }
                }
            }
            assert forall|p: int| 0 <= p < listed.len() implies (#[trigger] listed[p])
                < self.cells@.len() && self.cells@[listed[p] as int] == CellState::Alive by {
                if before[i as int] == CellState::Alive {
                    assert(listed.contains(listed[p]));
                    assert(was.contains(listed[p]));
                    let q = choose|q: int| 0 <= q < was.len() && was[q] == listed[p];
                    assert(was[q] != i);
                } else if state == CellState::Alive {
                    if p < was.len() {
                        assert(listed[p] == was[p]);
                    }
                } else {
                    assert(listed[p] == was[p]);
                }
            }
            assert(listed.no_duplicates()) by {
                if before[i as int] != CellState::Alive && state == CellState::Alive {
                    assert forall|p: int, q: int|
                        0 <= p < listed.len() && 0 <= q < listed.len() && p != q implies listed[p]
                        != listed[q] by {
                        if p < was.len() {
                            assert(listed[p] == was[p]);
                        }
                        if q < was.len() {
                            assert(listed[q] == was[q]);
                        }
                    }
                }
            }
        }
    }
}

impl Game {
    /// A new session in a window of `width` by `height` pixels: the grid
    /// takes the window but for the status strip of 22 rows. All cells are
    /// dead, unless `seed` is not 0: then the grid is filled at random from
    /// it. The session starts paused, at 16 generations a second.
    pub fn init(width: i32, height: i32, seed: u64, style: DigitStyle) -> (game: Game)
        requires
            0 < width,
            INFO_HEIGHT < height,
            width * height <= MAX_PIXELS,
        ensures
            game.wf(),
            game@ == GameState::started(width as int, height - INFO_HEIGHT, seed, style),
    {
        let game_height: i32 = height - INFO_HEIGHT;
        proof {
            let w = width as int;
            let h = game_height as int;
            assert(w * (h + 22) == w * h + w * 22) by (nonlinear_arith);
            assert(w * h >= h && w * h >= w) by (nonlinear_arith)
                requires
                    w >= 1,
                    h >= 1,
            ;
            assert(w * 22 >= 22) by (nonlinear_arith)
                requires
                    w >= 1,
            ;
        }
        let cell_count: usize = width as usize * game_height as usize;
        let pixel_count: usize = width as usize * height as usize;
        let pixels: Vec<Rgb> = vec![black(); pixel_count];
        let cells: Vec<CellState> = vec![CellState::Dead; cell_count];
        let mut game = Game {
            width,
            height: game_height,
            window_width: width,
            window_height: height,
            pixels,
            style,
            cells,
            neighbors: generate_neighbors(width, game_height),
            alive_cells: Vec::new(),
            generation: 0,
            cursor_pos: (0, 0),
            selection: None,
            cursor_hidden: false,
            paused: true,
            speed: DEFAULT_SPEED,
            instant: now(),
            gen_queue: 0,
            macro_flip_x: false,
            macro_flip_y: false,
            macro_swap_xy: false,
        };
        proof {
            let blank = GameState::blank(width as int, game_height as int, style);
            assert(game.pixels@ =~= blank.pixels);
            assert(game.cells@ =~= blank.cells);
            assert(game@ == blank);
        }
        draw_frame(&mut game.pixels, width, game_height, style);
        game.draw_info();
        game.set_speed(DEFAULT_SPEED);
        game.update_macro();
        game.draw_cursor();
        if seed != 0 {
            game.random(seed);
        }
        game
    }

    /// Shows the generation and the population.
    pub fn draw_info(&mut self)
        requires
            old(self).wf(),
        ensures
            final(self).wf(),
            final(self)@ == old(self)@.info_shown(),
    {
        proof {
            self.lemma_fits();
            lemma_alive_population(self.alive_cells@, self.cells@);
        }
        draw_info(
            &mut self.pixels,
            self.width,
            self.height,
            self.style,
            self.generation,
            self.alive_cells.len() as u64,
        );
    }

    /// Draws the cursor and the selection marks, unless the cursor is
    /// hidden.
    pub fn draw_cursor(&mut self)
        requires
            old(self).wf(),
        ensures
            final(self).wf(),
            final(self)@ == old(self)@.cursor_shown(),
    {
        proof {
            self.lemma_fits();
        }
        draw_cursor(
            &mut self.pixels,
            &self.cells,
            self.width,
            self.height,
            self.cursor_pos,
            self.selection,
            self.cursor_hidden,
        );
    }

    /// Takes the selection marks off the frame.
    pub fn erase_selection(&mut self)
        requires
            old(self).wf(),
        ensures
            final(self).wf(),
            final(self)@ == old(self)@.selection_hidden(),
    {
        proof {
            self.lemma_fits();
        }
        erase_selection(
            &mut self.pixels,
            &self.cells,
            self.width,
            self.height,
            self.cursor_pos,
            self.selection,
        );
    }

    /// Takes the cursor and the selection marks off the frame.
    pub fn erase_cursor(&mut self)
        requires
            old(self).wf(),
        ensures
            final(self).wf(),
            final(self)@ == old(self)@.cursor_unshown(),
    {
        proof {
            self.lemma_fits();
        }
        erase_cursor(
            &mut self.pixels,
            &self.cells,
            self.width,
            self.height,
            self.cursor_pos,
            self.selection,
        );
    }

    /// Sets every cell of the selection to `state`, and the whole grid
    /// where nothing is selected. The list of live cells is made anew from
    /// the grid.
    pub fn fill_selection(&mut self, state: CellState)
        requires
            old(self).wf(),
        ensures
            final(self).wf(),
            final(self)@ == old(self)@.filled(state),
    {
        proof {
            self.lemma_fits();
        }
        let size: (i32, i32) = self.get_selection();
        fill_cells(
            &mut self.cells,
            &mut self.pixels,
            self.width,
            self.height,
            self.cursor_pos,
            size,
            state,
        );
        collect_alive(&mut self.alive_cells, &self.cells);
    }

    /// Fills the grid at random from `seed` and starts counting generations
    /// anew. The same seed gives the same grid.
    pub fn random(&mut self, seed: u64)
        requires
            old(self).wf(),
        ensures
            final(self).wf(),
            final(self)@ == old(self)@.randomized(seed),
    {
        proof {
            self.lemma_fits();
        }
        self.generation = 0;
        random_fill(&mut self.cells, &mut self.pixels, &mut self.alive_cells, seed);
        self.draw_info();
        self.draw_cursor();
    }

    /// Sets every cell dead and starts counting generations anew.
    pub fn reset(&mut self)
        requires
            old(self).wf(),
        ensures
            final(self).wf(),
            final(self)@ == old(self)@.reset(),
    {
        proof {
            self.lemma_fits();
        }
        self.alive_cells.clear();
        self.generation = 0;
        let mut i: usize = 0;
        while i < self.cells.len()
            invariant
                i <= self.cells@.len(),
                self.cells@.len() == old(self).cells@.len(),
                self.pixels@.len() == old(self).pixels@.len(),
                self.pixels@.len() >= self.cells@.len(),
                forall|j: int| 0 <= j < i ==> (#[trigger] self.cells@[j]) == CellState::Dead,
                forall|j: int|
                    0 <= j < self.pixels@.len() ==> (#[trigger] self.pixels@[j]) == (if j < i {
                        black()
                    } else {
                        old(self).pixels@[j]
                    }),
                self.width == old(self).width,
                self.height == old(self).height,
                self.window_width == old(self).window_width,
                self.window_height == old(self).window_height,
                self.style == old(self).style,
                self.neighbors == old(self).neighbors,
                self.alive_cells@.len() == 0,
                self.generation == 0,
                self.cursor_pos == old(self).cursor_pos,
                self.selection == old(self).selection,
                self.cursor_hidden == old(self).cursor_hidden,
                self.paused == old(self).paused,
                self.speed == old(self).speed,
                self.gen_queue == old(self).gen_queue,
                self.macro_flip_x == old(self).macro_flip_x,
                self.macro_flip_y == old(self).macro_flip_y,
                self.macro_swap_xy == old(self).macro_swap_xy,
            decreases self.cells@.len() - i,
        {
            self.cells[i] = CellState::Dead;
            self.pixels[i] = black();
            i += 1;
        }
        proof {
            let dead = Seq::new(old(self).cells@.len(), |j: int| CellState::Dead);
            assert(self.cells@ =~= dead);
            assert(self.pixels@ =~= all_painted(old(self).pixels@, dead));
        }
        self.draw_cursor();
    }

    /// Moves the cursor to `(x, y)`, folded into the grid. The selection
    /// goes unless `keep_selection` is set.
    pub fn move_cursor(&mut self, x: i32, y: i32, keep_selection: bool)
        requires
            old(self).wf(),
        ensures
            final(self).wf(),
            final(self)@ == old(self)@.moved(x as int, y as int, keep_selection),
    {
        self.erase_cursor();
        if !keep_selection {
            self.selection = None;
        }
        self.cursor_pos = (wrap_coord(x, self.width), wrap_coord(y, self.height));
        self.draw_cursor();
    }

    /// Replaces the selection by `selection`, which is no larger than the
    /// grid.
    pub fn reselect(&mut self, selection: Option<(i32, i32)>)
        requires
            old(self).wf(),
            selection matches Some(size) ==> 0 <= size.0 <= old(self)@.width && 0 <= size.1 <= old(
                self,
            )@.height,
        ensures
            final(self).wf(),
            final(self)@ == old(self)@.reselected(pair_opt(selection)),
    {
        self.erase_selection();
        self.selection = selection;
        self.draw_cursor();
    }

    /// Selects `w` by `h` cells from the cursor on, each folded into the
    /// grid.
    pub fn set_selection(&mut self, w: i32, h: i32)
        requires
            old(self).wf(),
        ensures
            final(self).wf(),
            final(self)@ == old(self)@.selected(w as int, h as int),
    {
        let size: (i32, i32) = (wrap_coord(w, self.width), wrap_coord(h, self.height));
        self.reselect(Some(size));
    }

    /// Sets the speed, in generations a second: at least 1, at most 8000.
    pub fn set_speed(&mut self, speed: i32)
        requires
            old(self).wf(),
        ensures
            final(self).wf(),
            final(self)@ == old(self)@.with_speed(speed as int),
            speed <= 0 ==> final(self)@.speed == 1,
            speed > MAX_SPEED ==> final(self)@.speed == MAX_SPEED,
            1 <= speed <= MAX_SPEED ==> final(self)@.speed == speed,
    {
        proof {
            self.lemma_fits();
        }
        self.speed = if speed < 1 {
            1
        } else if speed > MAX_SPEED {
            MAX_SPEED
        } else {
            speed
        };
        draw_speed(&mut self.pixels, self.width, self.height, self.style, self.speed);
    }

    /// Shows the transform in the status strip.
    pub fn update_macro(&mut self)
        requires
            old(self).wf(),
        ensures
            final(self).wf(),
            final(self)@ == old(self)@.macro_shown(),
    {
        proof {
            self.lemma_fits();
        }
        draw_macro(
            &mut self.pixels,
            self.width,
            self.height,
            self.macro_swap_xy,
            self.macro_flip_x,
            self.macro_flip_y,
        );
    }

    /// Places a pattern at the cursor, under the transform of the session:
    /// the cells it marks come alive, no other cell changes. `code` is the
    /// pattern's code over its bounding box of `w` by `h` cells.
    pub fn place_macro(&mut self, code: &[u8], w: i32, h: i32)
        requires
            old(self).wf(),
            w > 0,
            h > 0,
            span(code@, code@.len() as int) <= i32::MAX,
        ensures
            final(self).wf(),
            final(self)@ == old(self)@.placed(code@, w as int, h as int),
    {
        proof {
            self.lemma_fits();
        }
        let offsets: Vec<(i32, i32)> = pattern_offsets(
            code,
            w,
            h,
            self.macro_swap_xy,
            self.macro_flip_x,
            self.macro_flip_y,
        );
        assert(pairs(offsets@) =~= old(self)@.offsets(code@, w as int, h as int));
        stamp(
            &mut self.cells,
            &mut self.pixels,
            &mut self.alive_cells,
            self.width,
            self.height,
            self.cursor_pos,
            &offsets,
        );
        self.draw_info();
        self.draw_cursor();
    }

    /// Places a pattern of the catalog at the cursor.
    pub fn place(&mut self, kind: MacroKind)
        requires
            old(self).wf(),
        ensures
            final(self).wf(),
            final(self)@ == old(self)@.placed_kind(kind),
    {
        let (code, w, h) = catalog_entry(kind);
        self.place_macro(code.as_slice(), w, h);
    }
}

/// The queue after `elapsed` nanoseconds at `speed`, held to its upper
/// bound.
fn queue_due(queue: u64, elapsed: u64, speed: i32) -> (due: u64)
    requires
        1 <= speed <= MAX_SPEED,
    ensures
        due == (if queue + elapsed * speed > MAX_QUEUE {
            MAX_QUEUE as int
        } else {
            queue + elapsed * speed
        }),
{
    assert(0 <= elapsed * speed <= 0xffff_ffff_ffff_ffff * 8000) by (nonlinear_arith)
        requires
            0 <= elapsed <= 0xffff_ffff_ffff_ffff,
            1 <= speed <= 8000,
    ;
    let total: u128 = queue as u128 + elapsed as u128 * speed as u128;
    if total > MAX_QUEUE as u128 {
        MAX_QUEUE
    } else {
        total as u64
    }
}

/// `v` held to the range of an `i32`.
pub(crate) fn hold(v: i64) -> (r: i32)
    ensures
        r == held(v as int),
{
    if v < -0x8000_0000 {
        -0x8000_0000
    } else if v > 0x7fff_ffff {
        0x7fff_ffff
    } else {
        v as i32
    }
}

impl Game {
    /// The cell under a pointer at `(px, py)` of the window.
    pub fn mouse_to_pixel(&self, px: i32, py: i32) -> (cell: (i32, i32))
        requires
            self.wf(),
        ensures
            pair(cell) == self@.pointed(px as int, py as int),
    {
        proof {
            self.lemma_fits();
        }
        let rows: i64 = self.height as i64 + INFO_HEIGHT as i64;
        assert(-0x8000_0000 * 0x4000_0000 <= px * self.width <= 0x8000_0000 * 0x4000_0000)
            by (nonlinear_arith)
            requires
                -0x8000_0000 <= px <= 0x7fff_ffff,
                0 < self.width <= 0x4000_0000,
        ;
        assert(-0x8000_0000 * 0x4000_0000 <= py * rows <= 0x8000_0000 * 0x4000_0000)
            by (nonlinear_arith)
            requires
                -0x8000_0000 <= py <= 0x7fff_ffff,
                0 < rows <= 0x4000_0000,
        ;
        let x: i64 = (px as i64 * self.width as i64) / self.window_width as i64;
        let y: i64 = (py as i64 * rows) / self.window_height as i64;
        (hold(x), hold(y))
    }

    /// Takes the new size of the window, in device pixels. A size that is
    /// not positive is not taken.
    pub fn apply_resize(&mut self, new_width: i32, new_height: i32)
        requires
            old(self).wf(),
        ensures
            final(self).wf(),
            final(self)@ == old(self)@.resized(new_width as int, new_height as int),
    {
        if new_width > 0 && new_height > 0 {
            self.window_width = new_width;
            self.window_height = new_height;
        }
    }

    /// Runs `n` generations and counts them.
    fn run(&mut self, n: u64)
        requires
            old(self).wf(),
        ensures
            final(self).wf(),
            final(self)@ == (GameState {
                cells: generations(
                    old(self)@.cells,
                    old(self)@.width,
                    old(self)@.height,
                    n as nat,
                ),
                pixels: crate::engine::batch_painted(
                    old(self)@.pixels,
                    old(self)@.cells,
                    old(self)@.width,
                    old(self)@.height,
                    n as nat,
                ),
                generation: (old(self)@.generation + n) % 0x1_0000_0000_0000_0000,
                ..old(self)@
            }),
    {
        proof {
            self.lemma_fits();
            lemma_generations_len(self.cells@, self.width as int, self.height as int, n as nat);
        }
        run_generations(
            &mut self.cells,
            &mut self.pixels,
            &mut self.alive_cells,
            &self.neighbors,
            n,
            Ghost(self.width as int),
            Ghost(self.height as int),
        );
        self.generation = if self.generation > 0xffff_ffff_ffff_ffff - n {
            self.generation - (0xffff_ffff_ffff_ffff - n) - 1
        } else {
            self.generation + n
        };
    }

    /// Takes `queue` for what is left in the queue.
    fn put_queue(&mut self, queue: u64)
        requires
            old(self).wf(),
            queue < NANOS,
        ensures
            final(self).wf(),
            final(self)@ == (GameState { queue: queue as int, ..old(self)@ }),
    {
        self.gen_queue = queue;
    }

    /// Runs the generations that have come due `elapsed` nanoseconds after
    /// the last step: the queue grows by the speed for every nanosecond, is
    /// held to its upper bound, and gives its whole generations; the rest
    /// stays in it. Says how many generations it ran: 133 at most, and none
    /// while the session is paused.
    pub fn advance(&mut self, elapsed: u64) -> (generations: u64)
        requires
            old(self).wf(),
        ensures
            final(self).wf(),
            final(self)@ == old(self)@.advanced(elapsed as int),
            generations == old(self)@.generations_due(elapsed as int),
            generations <= MAX_GENERATIONS,
            !old(self)@.paused && old(self)@.queue + elapsed * old(self)@.speed >= MAX_QUEUE
                ==> generations == MAX_GENERATIONS,
    {
        if self.paused {
            return 0;
        }
        let due: u64 = queue_due(self.gen_queue, elapsed, self.speed);
        if due < NANOS {
            self.put_queue(due);
            return 0;
        }
        let generations: u64 = due / NANOS;
        self.run(generations);
        self.put_queue(due % NANOS);
        self.draw_info();
        self.draw_cursor();
        generations
    }

    /// Shows the speed that a step reached, if it is below the speed asked
    /// for, and gives it: `generations` is what `advance` gave, `busy` the
    /// nanoseconds that the step took.
    pub fn report_speed(&mut self, generations: u64, busy: u64) -> (effective: i32)
        requires
            old(self).wf(),
        ensures
            final(self).wf(),
            final(self)@ == old(self)@.speed_reported(generations as int, busy as int),
            effective == GameState::reached(generations as int, busy as int),
    {
        proof {
            self.lemma_fits();
        }
        let effective: i32 = if busy == 0 {
            0x7fff_ffff
        } else {
            assert(0 <= generations * NANOS <= 0xffff_ffff_ffff_ffff * 1_000_000_000)
                by (nonlinear_arith)
                requires
                    0 <= generations <= 0xffff_ffff_ffff_ffff,
                    NANOS == 1_000_000_000,
            ;
            let rate: u128 = generations as u128 * NANOS as u128 / busy as u128;
            if rate > 0x7fff_ffff {
                0x7fff_ffff
            } else {
                rate as i32
            }
        };
        draw_effective(
            &mut self.pixels,
            self.width,
            self.height,
            self.style,
            effective,
            self.speed,
        );
        effective
    }

    /// Runs the generations that have come due since the last step, by the
    /// clock, and shows the speed reached if any was run and it is below
    /// the speed asked for. A paused session is left as it is.
    pub fn update(&mut self)
        requires
            old(self).wf(),
        ensures
            final(self).wf(),
            old(self)@.paused ==> final(self)@ == old(self)@,
            !old(self)@.paused ==> exists|elapsed: int, busy: int|
                0 <= elapsed <= u64::MAX && 0 <= busy <= u64::MAX && final(self)@ == #[trigger] old(
                    self,
                )@.ticked(elapsed, busy),
    {
        if self.paused {
            return ;
        }
        let since: u64 = nanos_since(&self.instant);
        self.instant = now();
        let generations: u64 = self.advance(since);
        let mut busy: u64 = 0;
        if generations > 0 {
            busy = nanos_since(&self.instant);
            self.report_speed(generations, busy);
        }
        assert(self@ == old(self)@.ticked(since as int, busy as int));
    }

    /// Fills the grid at random from a seed that nobody chose, and starts
    /// counting generations anew.
    pub fn reseed(&mut self)
        requires
            old(self).wf(),
        ensures
            final(self).wf(),
            exists|seed: u64| final(self)@ == #[trigger] old(self)@.randomized(seed),
    {
        let seed: u64 = random_word();
        self.random(seed);
    }

    /// The text of the selection, and of the whole grid where nothing is
    /// selected: the header with its size, then a symbol for every six
    /// cells, row by row. A block reads as a dead cell.
    pub fn copy(&self) -> (text: Vec<u8>)
        requires
            self.wf(),
        ensures
            text@ == self@.copied(),
    {
        proof {
            self.lemma_fits();
        }
        let size: (i32, i32) = self.get_selection();
        let mut text: Vec<u8> = write_header(size.0 as u32, size.1 as u32);
        let bits: Vec<bool> = read_bits(&self.cells, self.width, self.height, self.cursor_pos, size);
        let mut symbols: Vec<u8> = encode_bits(&bits);
        text.append(&mut symbols);
        text
    }

    /// Takes `selection` for the selection, and leaves the frame as it is.
    fn put_selection(&mut self, selection: Option<(i32, i32)>)
        requires
            old(self).wf(),
            selection matches Some(size) ==> 0 <= size.0 <= old(self)@.width && 0 <= size.1 <= old(
                self,
            )@.height,
        ensures
            final(self).wf(),
            final(self)@ == (GameState { selection: pair_opt(selection), ..old(self)@ }),
    {
        self.selection = selection;
    }

    /// Clears the selection and fills it with as many whole tiles of `size`
    /// as fit, each pasted from `symbols`. Says whether no symbol stopped
    /// the paste.
    fn paste_into_selection(&mut self, symbols: &[u8], size: (i32, i32)) -> (complete: bool)
        requires
            old(self).wf(),
            old(self)@.selection is Some,
            symbols@.len() > 0,
            size.0 > 0,
            size.1 > 0,
        ensures
            final(self).wf(),
            final(self)@ == old(self)@.pasted_symbols(symbols@, pair(size)),
            complete <==> !old(self)@.paste_stops(symbols@, pair(size)),
    {
        let room: (i32, i32) = self.get_selection();
        self.fill_selection(CellState::Dead);
        let across: i32 = room.0 / size.0;
        let down: i32 = room.1 / size.1;
        let ghost cleared = self@;
        proof {
            self.lemma_fits();
            assert(0 <= size.0 * size.1) by (nonlinear_arith)
                requires
                    size.0 > 0,
                    size.1 > 0,
            ;
            lemma_readable_range(symbols@, size.0 * size.1);
            vstd::arithmetic::div_mod::lemma_fundamental_div_mod(room.0 as int, size.0 as int);
            vstd::arithmetic::div_mod::lemma_fundamental_div_mod(room.1 as int, size.1 as int);
            vstd::arithmetic::div_mod::lemma_mod_bound(room.0 as int, size.0 as int);
            vstd::arithmetic::div_mod::lemma_mod_bound(room.1 as int, size.1 as int);
            vstd::arithmetic::div_mod::lemma_div_pos_is_pos(room.0 as int, size.0 as int);
            vstd::arithmetic::div_mod::lemma_div_pos_is_pos(room.1 as int, size.1 as int);
            assert(across * size.0 <= room.0) by (nonlinear_arith)
                requires
                    room.0 == size.0 * across + room.0 % size.0,
                    0 <= room.0 % size.0,
            ;
            assert(down * size.1 <= room.1) by (nonlinear_arith)
                requires
                    room.1 == size.1 * down + room.1 % size.1,
                    0 <= room.1 % size.1,
            ;
            assert(across == old(self)@.tiles_across(pair(size)));
            assert(down == old(self)@.tiles_down(pair(size)));
            assert(cleared == old(self)@.filled(CellState::Dead));
        }
        let complete: bool = paste_tiles(
            &mut self.cells,
            &mut self.pixels,
            &mut self.alive_cells,
            self.width,
            self.height,
            symbols,
            self.cursor_pos,
            size,
            across,
            down,
        );
        proof {
            assert(self@ == cleared.with_cells(self.cells@));
        }
        self.draw_cursor();
        complete
    }

    /// Clears the rectangle of `size` at the cursor, pastes `symbols` into
    /// it and makes it the selection, as far as it fits into the grid. Says
    /// whether no symbol stopped the paste.
    fn paste_at_cursor(&mut self, symbols: &[u8], size: (i32, i32)) -> (complete: bool)
        requires
            old(self).wf(),
            old(self)@.selection is None,
            symbols@.len() > 0,
            size.0 > 0,
            size.1 > 0,
        ensures
            final(self).wf(),
            final(self)@ == old(self)@.pasted_symbols(symbols@, pair(size)),
            complete <==> !old(self)@.paste_stops(symbols@, pair(size)),
    {
        let fitted: (i32, i32) = (if size.0 < self.width {
            size.0
        } else {
            self.width
        }, if size.1 < self.height {
            size.1
        } else {
            self.height
        });
        let grid: (i32, i32) = (self.width, self.height);
        self.put_selection(Some(fitted));
        self.fill_selection(CellState::Dead);
        self.erase_selection();
        if size.0 == grid.0 && size.1 == grid.1 {
            self.put_selection(None);
        }
        proof {
            self.lemma_fits();
            assert(0 <= size.0 * size.1) by (nonlinear_arith)
                requires
                    size.0 > 0,
                    size.1 > 0,
            ;
            lemma_readable_range(symbols@, size.0 * size.1);
        }
        let ghost framed = self@;
        let complete: bool = paste_clip(
            &mut self.cells,
            &mut self.pixels,
            &mut self.alive_cells,
            self.width,
            self.height,
            symbols,
            self.cursor_pos,
            size,
        );
        proof {
            assert(self@ == framed.with_cells(self.cells@));
        }
        self.draw_cursor();
        complete
    }

    /// Pastes `text` at the cursor.
    ///
    /// With a selection, the selection is cleared and filled with as many
    /// whole tiles of the pattern as fit. Without, the pattern's rectangle
    /// is cleared and takes the pattern, and becomes the selection.
    ///
    /// A text whose header is refused, or that stands for a rectangle
    /// without a cell, changes nothing. A symbol that is not of the alphabet
    /// stops the paste where a cell has to read it; what was pasted before
    /// stays.
    pub fn paste(&mut self, text: &[u8]) -> (r: Result<(), PasteError>)
        requires
            old(self).wf(),
        ensures
            final(self).wf(),
            final(self)@ == old(self)@.pasted(text@),
            r == old(self)@.paste_result(text@),
    {
        let header = match parse_header(text) {
            Ok(header) => header,
            Err(e) => {
                return Err(e);
            },
        };
        let size: (i32, i32) = match header.size {
            Some(size) => size,
            None => self.get_selection(),
        };
        assert(pair(size) == old(self)@.paste_size(text@));
        if size.0 <= 0 || size.1 <= 0 {
            return Err(PasteError::EmptySize);
        }
        let symbols: &[u8] = vstd::slice::slice_subrange(text, header.start, text.len());
        assert(symbols@ == GameState::paste_symbols(text@));
        let complete: bool = if self.selection.is_some() {
            self.paste_into_selection(symbols, size)
        } else {
            self.paste_at_cursor(symbols, size)
        };
        if complete {
            Ok(())
        } else {
            Err(PasteError::InvalidSymbol)
        }
    }
}

impl Game {
    /// Pauses the simulation, or lets it run on; time is measured anew from
    /// here.
    pub fn toggle_pause(&mut self)
        requires
            old(self).wf(),
        ensures
            final(self).wf(),
            final(self)@ == old(self)@.pause_toggled(),
    {
        self.paused = !self.paused;
        self.instant = now();
    }

    /// Hides the cursor and the selection marks, or shows them again.
    pub fn toggle_cursor(&mut self)
        requires
            old(self).wf(),
        ensures
            final(self).wf(),
            final(self)@ == old(self)@.cursor_toggled(),
    {
        self.cursor_hidden = !self.cursor_hidden;
        if self.cursor_hidden {
            self.erase_cursor();
        } else {
            self.draw_cursor();
        }
    }

    /// Turns over the flags of the transform that are named, and shows the
    /// transform.
    pub fn toggle_transform(&mut self, swap_xy: bool, flip_x: bool, flip_y: bool)
        requires
            old(self).wf(),
        ensures
            final(self).wf(),
            final(self)@ == old(self)@.with_transform(
                old(self)@.swap_xy != swap_xy,
                old(self)@.flip_x != flip_x,
                old(self)@.flip_y != flip_y,
            ),
    {
        if swap_xy {
            self.macro_swap_xy = !self.macro_swap_xy;
        }
        if flip_x {
            self.macro_flip_x = !self.macro_flip_x;
        }
        if flip_y {
            self.macro_flip_y = !self.macro_flip_y;
        }
        self.update_macro();
    }
}

} // verus!
