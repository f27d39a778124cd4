//! From keys and mouse buttons to commands, and from commands to what they
//! do to a session. What a command asks of the host (the window, the
//! clipboard, the clock) comes back as an effect for the host to carry out.

use vstd::prelude::*;
use crate::cell::CellState;
use crate::game::{hold, Game};
use crate::patterns::MacroKind;
use crate::state::{held, held_u32, lemma_valid_bounds, GameState};
use crate::status::INFO_HEIGHT;
use crate::torus::{wrap_coord, lemma_wrap_add};

verus! {

/// The keys that the session knows.
#[derive(Clone, Copy, Debug, PartialEq, Eq, Structural)]
pub enum Key {
    Right,
    Left,
    Down,
    Up,
    LeftBracket,
    RightBracket,
    Space,
    Enter,
    Delete,
    Backspace,
    Minus,
    Equal,
    Key1,
    Key2,
    Key3,
    A,
    B,
    C,
    G,
    H,
    Q,
    R,
    S,
    V,
    /// Any other key.
    Other,
}

/// The modifier keys held with a key.
#[derive(Clone, Copy, Debug, PartialEq, Eq, Structural)]
pub struct KeyMods {
    pub shift: bool,
    pub ctrl: bool,
}

/// The buttons of the mouse.
#[derive(Clone, Copy, Debug, PartialEq, Eq, Structural)]
pub enum MouseButton {
    Left,
    Right,
    /// Any other button.
    Other,
}

/// What a key asks for.
#[derive(Clone, Copy, Debug, PartialEq, Eq, Structural)]
pub enum EditorCommand {
    /// Move the cursor by `dx` columns and `dy` rows; the selection stays.
    MoveCursor { dx: i32, dy: i32 },
    /// Add `delta` to the speed.
    ChangeSpeed { delta: i32 },
    /// Pause, or run on.
    TogglePause,
    /// Turn the cell at the cursor alive, or dead if it is alive.
    ToggleCell,
    /// Fill the selection with blocks; without a selection, turn the cell at
    /// the cursor into a block, or dead if it is one.
    ToggleBlock,
    /// Clear the selection; without a selection, reset the session if
    /// `reset` is set.
    Clear { reset: bool },
    /// Select the whole grid.
    SelectAll,
    /// Drop the selection.
    Deselect,
    /// Place a pattern of the catalog at the cursor.
    PlaceMacro(MacroKind),
    /// Swap the axes of patterns, or stop swapping them.
    ToggleSwapXY,
    /// Mirror patterns in x, or stop mirroring them.
    ToggleFlipX,
    /// Mirror patterns in y, or stop mirroring them.
    ToggleFlipY,
    /// Hide the cursor, or show it.
    ToggleCursor,
    /// Fill the grid at random.
    Reseed,
    /// Make the window smaller by one whole scale.
    ScaleDown,
    /// Make the window larger by one whole scale.
    ScaleUp,
    /// Copy the selection to the clipboard.
    Copy,
    /// Paste the clipboard at the cursor.
    Paste,
    /// Leave.
    Quit,
    /// Nothing.
    Nothing,
}

/// What the host has to do after a command.
#[derive(Debug)]
pub enum Effect {
    /// Nothing.
    Done,
    /// Give the window this size, in device pixels.
    ResizeWindow { width: u32, height: u32 },
    /// Put this text on the clipboard.
    SetClipboard(Vec<u8>),
    /// Read the clipboard and paste its text.
    Paste,
    /// Close the window.
    Quit,
}

/// How far a key moves: 1, four times as far with shift, sixteen times as
/// far with ctrl, both together sixty-four times.
pub open spec fn multiplier_of(mods: KeyMods) -> int {
    (if mods.ctrl {
        16int
    } else {
        1int
    }) * (if mods.shift {
        4int
    } else {
        1int
    })
}

/// The command that a key stands for.
pub open spec fn command_of(key: Key, mods: KeyMods) -> EditorCommand {
    let m = multiplier_of(mods) as i32;
    match key {
        Key::Right => EditorCommand::MoveCursor { dx: m, dy: 0 },
        Key::Left => EditorCommand::MoveCursor { dx: (-m) as i32, dy: 0 },
        Key::Down => EditorCommand::MoveCursor { dx: 0, dy: m },
        Key::Up => EditorCommand::MoveCursor { dx: 0, dy: (-m) as i32 },
        Key::LeftBracket => EditorCommand::ChangeSpeed { delta: (-m) as i32 },
        Key::RightBracket => EditorCommand::ChangeSpeed { delta: m },
        Key::Space => EditorCommand::TogglePause,
        Key::Enter => EditorCommand::ToggleCell,
        Key::B => EditorCommand::ToggleBlock,
        Key::Delete | Key::Backspace => EditorCommand::Clear { reset: mods.ctrl },
        Key::A => if mods.ctrl {
            if mods.shift {
                EditorCommand::Deselect
            } else {
                EditorCommand::SelectAll
            }
        } else {
            EditorCommand::PlaceMacro(MacroKind::Acorn)
        },
        Key::Q => if mods.ctrl {
            EditorCommand::Quit
        } else {
            EditorCommand::Nothing
        },
        Key::H => if mods.ctrl {
            EditorCommand::ToggleCursor
        } else {
            EditorCommand::Nothing
        },
        Key::R => if mods.ctrl {
            EditorCommand::Reseed
        } else {
            EditorCommand::Nothing
        },
        Key::Minus => if mods.ctrl {
            EditorCommand::ScaleDown
        } else {
            EditorCommand::Nothing
        },
        Key::Equal => if mods.ctrl {
            EditorCommand::ScaleUp
        } else {
            EditorCommand::Nothing
        },
        Key::C => if mods.ctrl {
            EditorCommand::Copy
        } else {
            EditorCommand::Nothing
        },
        Key::V => if mods.ctrl {
            EditorCommand::Paste
        } else {
            EditorCommand::Nothing
        },
        Key::Key1 => EditorCommand::ToggleSwapXY,
        Key::Key2 => EditorCommand::ToggleFlipX,
        Key::Key3 => EditorCommand::ToggleFlipY,
        Key::G => if mods.shift {
            EditorCommand::PlaceMacro(MacroKind::GliderGun)
        } else {
            EditorCommand::PlaceMacro(MacroKind::Glider)
        },
        Key::S => if mods.shift {
            EditorCommand::PlaceMacro(MacroKind::SpaceshipLarge)
        } else if mods.ctrl {
            EditorCommand::PlaceMacro(MacroKind::SpaceshipMedium)
        } else {
            EditorCommand::PlaceMacro(MacroKind::SpaceshipSmall)
        },
        Key::Other => EditorCommand::Nothing,
    }
}

/// The command that a key stands for.
pub fn map_key(key: Key, mods: KeyMods) -> (command: EditorCommand)
    ensures
        command == command_of(key, mods),
{
    let m: i32 = (if mods.ctrl {
        16
    } else {
        1
    }) * (if mods.shift {
        4
    } else {
        1
    });
    match key {
        Key::Right => EditorCommand::MoveCursor { dx: m, dy: 0 },
        Key::Left => EditorCommand::MoveCursor { dx: -m, dy: 0 },
        Key::Down => EditorCommand::MoveCursor { dx: 0, dy: m },
        Key::Up => EditorCommand::MoveCursor { dx: 0, dy: -m },
        Key::LeftBracket => EditorCommand::ChangeSpeed { delta: -m },
        Key::RightBracket => EditorCommand::ChangeSpeed { delta: m },
        Key::Space => EditorCommand::TogglePause,
        Key::Enter => EditorCommand::ToggleCell,
        Key::B => EditorCommand::ToggleBlock,
        Key::Delete | Key::Backspace => EditorCommand::Clear { reset: mods.ctrl },
        Key::A => if mods.ctrl {
            if mods.shift {
                EditorCommand::Deselect
            } else {
                EditorCommand::SelectAll
            }
        } else {
            EditorCommand::PlaceMacro(MacroKind::Acorn)
        },
        Key::Q => if mods.ctrl {
            EditorCommand::Quit
        } else {
            EditorCommand::Nothing
        },
        Key::H => if mods.ctrl {
            EditorCommand::ToggleCursor
        } else {
            EditorCommand::Nothing
        },
        Key::R => if mods.ctrl {
            EditorCommand::Reseed
        } else {
            EditorCommand::Nothing
        },
        Key::Minus => if mods.ctrl {
            EditorCommand::ScaleDown
        } else {
            EditorCommand::Nothing
        },
        Key::Equal => if mods.ctrl {
            EditorCommand::ScaleUp
        } else {
            EditorCommand::Nothing
        },
        Key::C => if mods.ctrl {
            EditorCommand::Copy
        } else {
            EditorCommand::Nothing
        },
        Key::V => if mods.ctrl {
            EditorCommand::Paste
        } else {
            EditorCommand::Nothing
        },
        Key::Key1 => EditorCommand::ToggleSwapXY,
        Key::Key2 => EditorCommand::ToggleFlipX,
        Key::Key3 => EditorCommand::ToggleFlipY,
        Key::G => if mods.shift {
            EditorCommand::PlaceMacro(MacroKind::GliderGun)
        } else {
            EditorCommand::PlaceMacro(MacroKind::Glider)
        },
        Key::S => if mods.shift {
            EditorCommand::PlaceMacro(MacroKind::SpaceshipLarge)
        } else if mods.ctrl {
            EditorCommand::PlaceMacro(MacroKind::SpaceshipMedium)
        } else {
            EditorCommand::PlaceMacro(MacroKind::SpaceshipSmall)
        },
        Key::Other => EditorCommand::Nothing,
    }
}

impl GameState {
    /// The session after a command. A command that needs the host (a paste,
    /// a new size of the window, the end) leaves the session as it is. What
    /// a random fill makes of the session is not a matter of the session
    /// alone: it is not stated here.
    pub open spec fn applied(self, command: EditorCommand) -> GameState {
        match command {
            EditorCommand::MoveCursor { dx, dy } => self.moved(
                self.cursor.0 + dx,
                self.cursor.1 + dy,
                true,
            ),
            EditorCommand::ChangeSpeed { delta } => self.with_speed(self.speed + delta),
            EditorCommand::TogglePause => self.pause_toggled(),
            EditorCommand::ToggleCell => self.cell_toggled(),
            EditorCommand::ToggleBlock => self.block_toggled(),
            EditorCommand::Clear { reset } => self.cleared(reset),
            EditorCommand::SelectAll => self.reselected(Some((self.width, self.height))),
            EditorCommand::Deselect => self.reselected(None),
            EditorCommand::PlaceMacro(kind) => self.placed_kind(kind),
            EditorCommand::ToggleSwapXY => self.with_transform(
                !self.swap_xy,
                self.flip_x,
                self.flip_y,
            ),
            EditorCommand::ToggleFlipX => self.with_transform(
                self.swap_xy,
                !self.flip_x,
                self.flip_y,
            ),
            EditorCommand::ToggleFlipY => self.with_transform(
                self.swap_xy,
                self.flip_x,
                !self.flip_y,
            ),
            EditorCommand::ToggleCursor => self.cursor_toggled(),
            _ => self,
        }
    }

    /// The session after a button of the mouse went down over the cell
    /// `at`: the left button moves the cursor there and drops the selection,
    /// the right button selects from the cursor to there.
    pub open spec fn pressed(self, button: MouseButton, at: (int, int)) -> GameState {
        match button {
            MouseButton::Left => self.moved(at.0, at.1, false),
            MouseButton::Right => self.selected(
                held(at.0 - self.cursor.0 + 1),
                held(at.1 - self.cursor.1 + 1),
            ),
            MouseButton::Other => self,
        }
    }

    /// The session after a button of the mouse came up over the cell `at`:
    /// the left button, let go on another cell than the cursor's, selects
    /// from the cursor to there.
    pub open spec fn released(self, button: MouseButton, at: (int, int)) -> GameState {
        if button == MouseButton::Left && at != self.cursor {
            self.selected(held(at.0 - self.cursor.0 + 1), held(at.1 - self.cursor.1 + 1))
        } else {
            self
        }
    }
}

/// What the host has to do after a command.
pub open spec fn effect_of(s: GameState, command: EditorCommand) -> Effect {
    match command {
        EditorCommand::ScaleDown => Effect::ResizeWindow {
            width: s.scaled_window(false).0 as u32,
            height: s.scaled_window(false).1 as u32,
        },
        EditorCommand::ScaleUp => Effect::ResizeWindow {
            width: s.scaled_window(true).0 as u32,
            height: s.scaled_window(true).1 as u32,
        },
        EditorCommand::Paste => Effect::Paste,
        EditorCommand::Quit => Effect::Quit,
        _ => Effect::Done,
    }
}

/// `v` held to the range of an `u32`.
fn hold_u32(v: u64) -> (r: u32)
    ensures
        r == held_u32(v as int),
{
    if v > 0xffff_ffff {
        0xffff_ffff
    } else {
        v as u32
    }
}

impl Game {
    /// The size of the window one whole scale up or down, in device pixels.
    pub fn scaled_window(&self, up: bool) -> (size: (u32, u32))
        requires
            self.wf(),
        ensures
            (size.0 as int, size.1 as int) == self@.scaled_window(up),
    {
        proof {
            self.lemma_wf();
            lemma_valid_bounds(self@);
        }
        let w: i32 = self.width();
        let h: i32 = self.height();
        let window: i32 = self.window_size().0;
        let now: i64 = window as i64 / w as i64;
        proof {
            vstd::arithmetic::div_mod::lemma_div_pos_is_pos(window as int, w as int);
            vstd::arithmetic::div_mod::lemma_div_nonincreasing(window as int, w as int);
        }
        let scale: i64 = if up {
            now + 1
        } else if now - 1 < 1 {
            1
        } else {
            now - 1
        };
        let rows: i64 = h as i64 + INFO_HEIGHT as i64;
        assert(0 <= scale * w <= 0x8000_0000 * 0x8000_0000) by (nonlinear_arith)
            requires
                0 < scale <= 0x8000_0000,
                0 < w <= 0x8000_0000,
        ;
        assert(0 <= scale * rows <= 0x8000_0000 * 0x8000_0000) by (nonlinear_arith)
            requires
                0 < scale <= 0x8000_0000,
                0 < rows <= 0x8000_0000,
        ;
        (hold_u32((scale * w as i64) as u64), hold_u32((scale * rows) as u64))
    }

    /// Moves the cursor by `dx` columns and `dy` rows; the selection stays.
    fn move_by(&mut self, dx: i32, dy: i32)
        requires
            old(self).wf(),
        ensures
            final(self).wf(),
            final(self)@ == old(self)@.moved(
                old(self)@.cursor.0 + dx,
                old(self)@.cursor.1 + dy,
                true,
            ),
    {
        proof {
            self.lemma_wf();
            lemma_valid_bounds(self@);
        }
        let c: (i32, i32) = self.cursor();
        let x: i32 = c.0 + wrap_coord(dx, self.width());
        let y: i32 = c.1 + wrap_coord(dy, self.height());
        proof {
            lemma_wrap_add(dx as int, c.0 as int, self@.width);
            lemma_wrap_add(dy as int, c.1 as int, self@.height);
        }
        self.move_cursor(x, y, true);
    }

    /// Adds `delta` to the speed.
    fn change_speed(&mut self, delta: i32)
        requires
            old(self).wf(),
        ensures
            final(self).wf(),
            final(self)@ == old(self)@.with_speed(old(self)@.speed + delta),
    {
        let speed: i32 = self.speed();
        self.set_speed(hold(speed as i64 + delta as i64));
    }

    /// Turns the cell at the cursor alive, or dead if it is alive.
    fn toggle_cell(&mut self)
        requires
            old(self).wf(),
        ensures
            final(self).wf(),
            final(self)@ == old(self)@.cell_toggled(),
    {
        let c: (i32, i32) = self.cursor();
        let state: CellState = if self.get_cell(c.0, c.1) == CellState::Alive {
            CellState::Dead
        } else {
            CellState::Alive
        };
        self.set_cell(c.0, c.1, state);
    }

    /// Fills the selection with blocks; without a selection, turns the cell
    /// at the cursor into a block, or dead if it is one.
    fn toggle_block(&mut self)
        requires
            old(self).wf(),
        ensures
            final(self).wf(),
            final(self)@ == old(self)@.block_toggled(),
    {
        if self.selection().is_some() {
            self.fill_selection(CellState::Block);
            self.draw_cursor();
        } else {
            let c: (i32, i32) = self.cursor();
            let state: CellState = if self.get_cell(c.0, c.1) == CellState::Block {
                CellState::Dead
            } else {
                CellState::Block
            };
            self.set_cell(c.0, c.1, state);
        }
    }

    /// Clears the selection; without a selection, resets the session if
    /// `reset` is set.
    fn clear(&mut self, reset: bool)
        requires
            old(self).wf(),
        ensures
            final(self).wf(),
            final(self)@ == old(self)@.cleared(reset),
    {
        if self.selection().is_some() {
            self.fill_selection(CellState::Dead);
            self.draw_cursor();
        } else if reset {
            self.reset();
        }
    }

    /// Selects the whole grid.
    fn select_all(&mut self)
        requires
            old(self).wf(),
        ensures
            final(self).wf(),
            final(self)@ == old(self)@.reselected(Some((old(self)@.width, old(self)@.height))),
    {
        proof {
            self.lemma_wf();
        }
        let size: (i32, i32) = (self.width(), self.height());
        self.reselect(Some(size));
    }

    /// What a command leaves for the host to do.
    fn effect(&self, command: EditorCommand) -> (effect: Effect)
        requires
            self.wf(),
        ensures
            match command {
                EditorCommand::Copy => effect matches Effect::SetClipboard(text) && text@
                    == self@.copied(),
                _ => effect == effect_of(self@, command),
            },
    {
        match command {
            EditorCommand::ScaleDown => {
                let size: (u32, u32) = self.scaled_window(false);
                Effect::ResizeWindow { width: size.0, height: size.1 }
            },
            EditorCommand::ScaleUp => {
                let size: (u32, u32) = self.scaled_window(true);
                Effect::ResizeWindow { width: size.0, height: size.1 }
            },
            EditorCommand::Copy => Effect::SetClipboard(self.copy()),
            EditorCommand::Paste => Effect::Paste,
            EditorCommand::Quit => Effect::Quit,
            _ => Effect::Done,
        }
    }

    /// Carries out a command, and says what is left for the host to do.
    ///
    /// A paste is the host's to start: it reads the clipboard and hands the
    /// text to the session. A random fill draws its own seed.
    pub fn apply(&mut self, command: EditorCommand) -> (effect: Effect)
        requires
            old(self).wf(),
        ensures
            final(self).wf(),
            command != EditorCommand::Reseed ==> final(self)@ == old(self)@.applied(command),
            command == EditorCommand::Reseed ==> exists|seed: u64|
                final(self)@ == #[trigger] old(self)@.randomized(seed),
            match command {
                EditorCommand::Copy => effect matches Effect::SetClipboard(text) && text@ == old(
                    self,
                )@.copied(),
                _ => effect == effect_of(old(self)@, command),
            },
    {
        let effect: Effect = self.effect(command);
        match command {
            EditorCommand::MoveCursor { dx, dy } => self.move_by(dx, dy),
            EditorCommand::ChangeSpeed { delta } => self.change_speed(delta),
            EditorCommand::TogglePause => self.toggle_pause(),
            EditorCommand::ToggleCell => self.toggle_cell(),
            EditorCommand::ToggleBlock => self.toggle_block(),
            EditorCommand::Clear { reset } => self.clear(reset),
            EditorCommand::SelectAll => self.select_all(),
            EditorCommand::Deselect => self.reselect(None),
            EditorCommand::PlaceMacro(kind) => self.place(kind),
            EditorCommand::ToggleSwapXY => self.toggle_transform(true, false, false),
            EditorCommand::ToggleFlipX => self.toggle_transform(false, true, false),
            EditorCommand::ToggleFlipY => self.toggle_transform(false, false, true),
            EditorCommand::ToggleCursor => self.toggle_cursor(),
            EditorCommand::Reseed => self.reseed(),
            _ => {},
        }
        effect
    }

    /// Takes a key that went down, and says what is left for the host to
    /// do.
    pub fn key_down_event(&mut self, key: Key, mods: KeyMods) -> (effect: Effect)
        requires
            old(self).wf(),
        ensures
            final(self).wf(),
            command_of(key, mods) != EditorCommand::Reseed ==> final(self)@ == old(self)@.applied(
                command_of(key, mods),
            ),
            command_of(key, mods) == EditorCommand::Reseed ==> exists|seed: u64|
                final(self)@ == #[trigger] old(self)@.randomized(seed),
            match command_of(key, mods) {
                EditorCommand::Copy => effect matches Effect::SetClipboard(text) && text@ == old(
                    self,
                )@.copied(),
                command => effect == effect_of(old(self)@, command),
            },
    {
        self.apply(map_key(key, mods))
    }

    /// Takes a button of the mouse that went down at `(px, py)` of the
    /// window.
    pub fn mouse_button_down_event(&mut self, button: MouseButton, px: i32, py: i32)
        requires
            old(self).wf(),
        ensures
            final(self).wf(),
            final(self)@ == old(self)@.pressed(button, old(self)@.pointed(px as int, py as int)),
    {
        let at: (i32, i32) = self.mouse_to_pixel(px, py);
        let c: (i32, i32) = self.cursor();
        match button {
            MouseButton::Left => {
                self.move_cursor(at.0, at.1, false);
            },
            MouseButton::Right => {
                self.set_selection(
                    hold(at.0 as i64 - c.0 as i64 + 1),
                    hold(at.1 as i64 - c.1 as i64 + 1),
                );
            },
            MouseButton::Other => {},
        }
    }

    /// Takes a button of the mouse that came up at `(px, py)` of the window.
    pub fn mouse_button_up_event(&mut self, button: MouseButton, px: i32, py: i32)
        requires
            old(self).wf(),
        ensures
            final(self).wf(),
            final(self)@ == old(self)@.released(button, old(self)@.pointed(px as int, py as int)),
    {
        let at: (i32, i32) = self.mouse_to_pixel(px, py);
        let c: (i32, i32) = self.cursor();
        match button {
            MouseButton::Left => {
                if at.0 == c.0 && at.1 == c.1 {
                    return ;
                }
                self.set_selection(
                    hold(at.0 as i64 - c.0 as i64 + 1),
                    hold(at.1 as i64 - c.1 as i64 + 1),
                );
            },
            _ => {},
        }
    }
}

} // verus!
