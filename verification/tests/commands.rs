use game_of_life::cell::CellState;
use game_of_life::command::{map_key, EditorCommand, Effect, Key, KeyMods, MouseButton};
use game_of_life::game::Game;
use game_of_life::glyphs::DigitStyle;
use game_of_life::patterns::MacroKind;

const PLAIN: KeyMods = KeyMods { shift: false, ctrl: false };
const SHIFT: KeyMods = KeyMods { shift: true, ctrl: false };
const CTRL: KeyMods = KeyMods { shift: false, ctrl: true };
const BOTH: KeyMods = KeyMods { shift: true, ctrl: true };

fn new_game(width: i32, height: i32) -> Game {
    Game::init(width, height + 22, 0, DigitStyle::Normal)
}

fn alive(game: &Game) -> Vec<usize> {
    let mut out = Vec::new();
    for (i, cell) in game.cells().iter().enumerate() {
        if *cell == CellState::Alive {
            out.push(i);
        }
    }
    out
}

fn done(effect: Effect) {
    assert!(matches!(effect, Effect::Done));
}

#[test]
fn the_arrows_move_the_cursor() {
    assert_eq!(map_key(Key::Right, PLAIN), EditorCommand::MoveCursor { dx: 1, dy: 0 });
    assert_eq!(map_key(Key::Left, PLAIN), EditorCommand::MoveCursor { dx: -1, dy: 0 });
    assert_eq!(map_key(Key::Down, PLAIN), EditorCommand::MoveCursor { dx: 0, dy: 1 });
    assert_eq!(map_key(Key::Up, PLAIN), EditorCommand::MoveCursor { dx: 0, dy: -1 });
}

#[test]
fn the_modifiers_multiply() {
    assert_eq!(map_key(Key::Right, SHIFT), EditorCommand::MoveCursor { dx: 4, dy: 0 });
    assert_eq!(map_key(Key::Right, CTRL), EditorCommand::MoveCursor { dx: 16, dy: 0 });
    assert_eq!(map_key(Key::Right, BOTH), EditorCommand::MoveCursor { dx: 64, dy: 0 });
    assert_eq!(map_key(Key::Up, BOTH), EditorCommand::MoveCursor { dx: 0, dy: -64 });
    assert_eq!(map_key(Key::LeftBracket, PLAIN), EditorCommand::ChangeSpeed { delta: -1 });
    assert_eq!(map_key(Key::RightBracket, SHIFT), EditorCommand::ChangeSpeed { delta: 4 });
    assert_eq!(map_key(Key::LeftBracket, CTRL), EditorCommand::ChangeSpeed { delta: -16 });
    assert_eq!(map_key(Key::RightBracket, BOTH), EditorCommand::ChangeSpeed { delta: 64 });
}

#[test]
fn the_editing_keys_edit() {
    for mods in [PLAIN, SHIFT, CTRL, BOTH] {
        assert_eq!(map_key(Key::Space, mods), EditorCommand::TogglePause);
        assert_eq!(map_key(Key::Enter, mods), EditorCommand::ToggleCell);
        assert_eq!(map_key(Key::B, mods), EditorCommand::ToggleBlock);
        assert_eq!(map_key(Key::Key1, mods), EditorCommand::ToggleSwapXY);
        assert_eq!(map_key(Key::Key2, mods), EditorCommand::ToggleFlipX);
        assert_eq!(map_key(Key::Key3, mods), EditorCommand::ToggleFlipY);
        assert_eq!(map_key(Key::Other, mods), EditorCommand::Nothing);
    }
    assert_eq!(map_key(Key::Delete, PLAIN), EditorCommand::Clear { reset: false });
    assert_eq!(map_key(Key::Backspace, SHIFT), EditorCommand::Clear { reset: false });
    assert_eq!(map_key(Key::Delete, CTRL), EditorCommand::Clear { reset: true });
    assert_eq!(map_key(Key::Backspace, BOTH), EditorCommand::Clear { reset: true });
}

#[test]
fn the_letters_place_patterns() {
    assert_eq!(map_key(Key::A, PLAIN), EditorCommand::PlaceMacro(MacroKind::Acorn));
    assert_eq!(map_key(Key::A, SHIFT), EditorCommand::PlaceMacro(MacroKind::Acorn));
    assert_eq!(map_key(Key::G, PLAIN), EditorCommand::PlaceMacro(MacroKind::Glider));
    assert_eq!(map_key(Key::G, CTRL), EditorCommand::PlaceMacro(MacroKind::Glider));
    assert_eq!(map_key(Key::G, SHIFT), EditorCommand::PlaceMacro(MacroKind::GliderGun));
    assert_eq!(map_key(Key::G, BOTH), EditorCommand::PlaceMacro(MacroKind::GliderGun));
    assert_eq!(map_key(Key::S, PLAIN), EditorCommand::PlaceMacro(MacroKind::SpaceshipSmall));
    assert_eq!(map_key(Key::S, CTRL), EditorCommand::PlaceMacro(MacroKind::SpaceshipMedium));
    assert_eq!(map_key(Key::S, SHIFT), EditorCommand::PlaceMacro(MacroKind::SpaceshipLarge));
    assert_eq!(map_key(Key::S, BOTH), EditorCommand::PlaceMacro(MacroKind::SpaceshipLarge));
}

#[test]
fn the_shortcuts_need_ctrl() {
    let shortcuts = [
        (Key::Q, EditorCommand::Quit),
        (Key::H, EditorCommand::ToggleCursor),
        (Key::R, EditorCommand::Reseed),
        (Key::Minus, EditorCommand::ScaleDown),
        (Key::Equal, EditorCommand::ScaleUp),
        (Key::C, EditorCommand::Copy),
        (Key::V, EditorCommand::Paste),
    ];
    for (key, command) in shortcuts {
        assert_eq!(map_key(key, PLAIN), EditorCommand::Nothing);
        assert_eq!(map_key(key, SHIFT), EditorCommand::Nothing);
        assert_eq!(map_key(key, CTRL), command);
        assert_eq!(map_key(key, BOTH), command);
    }
    assert_eq!(map_key(Key::A, CTRL), EditorCommand::SelectAll);
    assert_eq!(map_key(Key::A, BOTH), EditorCommand::Deselect);
}

#[test]
fn moving_keeps_the_selection_and_wraps() {
    let mut game = new_game(8, 6);
    game.set_selection(2, 2);
    done(game.apply(EditorCommand::MoveCursor { dx: -1, dy: 0 }));
    assert_eq!(game.cursor(), (7, 0));
    assert_eq!(game.selection(), Some((2, 2)));
    done(game.key_down_event(Key::Down, BOTH));
    assert_eq!(game.cursor(), (7, 4));
    done(game.apply(EditorCommand::MoveCursor { dx: i32::MAX, dy: i32::MIN }));
    assert_eq!(game.cursor(), (6, 2));
}

#[test]
fn the_speed_changes_within_its_limits() {
    let mut game = new_game(8, 6);
    done(game.key_down_event(Key::RightBracket, SHIFT));
    assert_eq!(game.speed(), 20);
    done(game.key_down_event(Key::LeftBracket, BOTH));
    assert_eq!(game.speed(), 1);
    done(game.apply(EditorCommand::ChangeSpeed { delta: i32::MAX }));
    assert_eq!(game.speed(), 8000);
    done(game.apply(EditorCommand::ChangeSpeed { delta: i32::MAX }));
    assert_eq!(game.speed(), 8000);
    done(game.apply(EditorCommand::ChangeSpeed { delta: i32::MIN }));
    assert_eq!(game.speed(), 1);
}

#[test]
fn space_pauses_and_runs_on() {
    let mut game = new_game(8, 6);
    done(game.key_down_event(Key::Space, PLAIN));
    assert!(!game.is_paused());
    done(game.apply(EditorCommand::TogglePause));
    assert!(game.is_paused());
}

#[test]
fn enter_turns_the_cell_at_the_cursor_on_and_off() {
    let mut game = new_game(8, 6);
    game.move_cursor(2, 1, false);
    done(game.key_down_event(Key::Enter, PLAIN));
    assert_eq!(alive(&game), vec![10]);
    done(game.key_down_event(Key::Enter, PLAIN));
    assert_eq!(alive(&game), Vec::<usize>::new());
    game.set_cell(2, 1, CellState::Block);
    done(game.key_down_event(Key::Enter, PLAIN));
    assert_eq!(game.get_cell(2, 1), CellState::Alive);
}

#[test]
fn b_turns_the_cell_at_the_cursor_into_a_block_and_back() {
    let mut game = new_game(8, 6);
    game.move_cursor(2, 1, false);
    done(game.key_down_event(Key::B, PLAIN));
    assert_eq!(game.get_cell(2, 1), CellState::Block);
    done(game.key_down_event(Key::B, PLAIN));
    assert_eq!(game.get_cell(2, 1), CellState::Dead);
    game.set_cell(2, 1, CellState::Alive);
    done(game.key_down_event(Key::B, PLAIN));
    assert_eq!(game.get_cell(2, 1), CellState::Block);
    assert_eq!(game.population(), 0);
}

#[test]
fn b_fills_a_selection_with_blocks() {
    let mut game = new_game(8, 6);
    game.set_selection(2, 2);
    done(game.key_down_event(Key::B, PLAIN));
    for (x, y) in [(0, 0), (1, 0), (0, 1), (1, 1)] {
        assert_eq!(game.get_cell(x, y), CellState::Block);
    }
    assert_eq!(game.get_cell(2, 0), CellState::Dead);
    done(game.key_down_event(Key::B, PLAIN));
    assert_eq!(game.get_cell(0, 0), CellState::Block);
}

#[test]
fn delete_clears_the_selection() {
    let mut game = new_game(8, 6);
    game.fill_selection(CellState::Alive);
    game.set_selection(2, 2);
    done(game.key_down_event(Key::Delete, PLAIN));
    assert_eq!(game.population(), 44);
    assert_eq!(game.get_cell(0, 0), CellState::Dead);
    done(game.key_down_event(Key::Backspace, CTRL));
    assert_eq!(game.population(), 44);
}

#[test]
fn delete_without_a_selection_resets_only_with_ctrl() {
    let mut game = new_game(8, 6);
    game.fill_selection(CellState::Alive);
    game.toggle_pause();
    game.advance(62_500_000);
    let cells = game.cells().clone();
    assert_eq!(game.generation(), 1);
    done(game.key_down_event(Key::Delete, PLAIN));
    assert_eq!(game.cells(), &cells);
    assert_eq!(game.generation(), 1);
    game.set_cell(1, 1, CellState::Alive);
    done(game.key_down_event(Key::Delete, CTRL));
    assert_eq!(game.population(), 0);
    assert_eq!(game.generation(), 0);
}

#[test]
fn ctrl_a_selects_the_grid_and_with_shift_nothing() {
    let mut game = new_game(8, 6);
    game.move_cursor(3, 3, false);
    done(game.key_down_event(Key::A, CTRL));
    assert_eq!(game.selection(), Some((8, 6)));
    assert_eq!(game.population(), 0);
    done(game.key_down_event(Key::A, BOTH));
    assert_eq!(game.selection(), None);
}

#[test]
fn the_pattern_keys_place_at_the_cursor() {
    let mut game = new_game(8, 8);
    game.move_cursor(3, 3, false);
    done(game.key_down_event(Key::G, PLAIN));
    assert_eq!(alive(&game), vec![19, 28, 34, 35, 36]);
    let mut game = new_game(10, 10);
    game.move_cursor(5, 5, false);
    done(game.key_down_event(Key::A, PLAIN));
    assert_eq!(alive(&game), vec![43, 55, 62, 63, 66, 67, 68]);
    let mut game = new_game(40, 12);
    game.move_cursor(20, 6, false);
    done(game.key_down_event(Key::G, SHIFT));
    assert_eq!(game.population(), 36);
    let mut game = new_game(12, 12);
    done(game.key_down_event(Key::S, PLAIN));
    assert_eq!(game.population(), 8);
    done(game.key_down_event(Key::Delete, CTRL));
    done(game.key_down_event(Key::S, CTRL));
    assert_eq!(game.population(), 9);
    done(game.key_down_event(Key::Delete, CTRL));
    done(game.key_down_event(Key::S, SHIFT));
    assert_eq!(game.population(), 10);
}

#[test]
fn the_number_keys_turn_the_flags_of_the_transform() {
    let mut game = new_game(8, 8);
    done(game.key_down_event(Key::Key1, PLAIN));
    assert_eq!(game.transform(), (true, false, false));
    done(game.key_down_event(Key::Key2, PLAIN));
    assert_eq!(game.transform(), (true, true, false));
    done(game.key_down_event(Key::Key3, PLAIN));
    assert_eq!(game.transform(), (true, true, true));
    done(game.key_down_event(Key::Key1, PLAIN));
    assert_eq!(game.transform(), (false, true, true));
    game.move_cursor(3, 3, false);
    done(game.key_down_event(Key::G, PLAIN));
    // (0,1) (-1,0) (1,-1) (0,-1) (-1,-1) from (3,3)
    assert_eq!(alive(&game), vec![18, 19, 20, 26, 35]);
}

#[test]
fn ctrl_h_hides_the_cursor_and_shows_it() {
    let mut game = new_game(8, 8);
    let shown = game.pixels().clone();
    done(game.key_down_event(Key::H, CTRL));
    assert!(game.is_cursor_hidden());
    assert_ne!(game.pixels(), &shown);
    done(game.key_down_event(Key::H, CTRL));
    assert!(!game.is_cursor_hidden());
    assert_eq!(game.pixels(), &shown);
}

#[test]
fn the_window_is_scaled_by_whole_factors() {
    let mut game = new_game(8, 8);
    assert_eq!(game.scaled_window(true), (16, 60));
    assert_eq!(game.scaled_window(false), (8, 30));
    match game.key_down_event(Key::Equal, CTRL) {
        Effect::ResizeWindow { width, height } => assert_eq!((width, height), (16, 60)),
        other => panic!("{:?}", other),
    }
    game.apply_resize(24, 90);
    match game.key_down_event(Key::Minus, CTRL) {
        Effect::ResizeWindow { width, height } => assert_eq!((width, height), (16, 60)),
        other => panic!("{:?}", other),
    }
    match game.apply(EditorCommand::ScaleUp) {
        Effect::ResizeWindow { width, height } => assert_eq!((width, height), (32, 120)),
        other => panic!("{:?}", other),
    }
    game.apply_resize(3, 1);
    assert_eq!(game.scaled_window(false), (8, 30));
    assert_eq!(game.scaled_window(true), (8, 30));
    game.apply_resize(i32::MAX, 1);
    assert_eq!(game.scaled_window(true), (2147483648, u32::MAX));
    assert_eq!(game.window_size(), (i32::MAX, 1));
}

#[test]
fn copying_hands_the_text_to_the_host() {
    let mut game = new_game(8, 8);
    game.move_cursor(3, 3, false);
    game.place(MacroKind::Glider);
    game.move_cursor(0, 0, false);
    match game.key_down_event(Key::C, CTRL) {
        Effect::SetClipboard(text) => assert_eq!(text, b"=8x8=AAAQCDgAAA".to_vec()),
        other => panic!("{:?}", other),
    }
}

#[test]
fn what_needs_the_host_is_left_to_the_host() {
    let mut game = new_game(8, 8);
    game.place(MacroKind::Glider);
    let cells = game.cells().clone();
    let pixels = game.pixels().clone();
    assert!(matches!(game.key_down_event(Key::V, CTRL), Effect::Paste));
    assert!(matches!(game.key_down_event(Key::Q, CTRL), Effect::Quit));
    done(game.key_down_event(Key::Q, PLAIN));
    done(game.key_down_event(Key::Other, BOTH));
    done(game.apply(EditorCommand::Nothing));
    assert_eq!(game.cells(), &cells);
    assert_eq!(game.pixels(), &pixels);
}

#[test]
fn ctrl_r_fills_the_grid_at_random() {
    let mut game = new_game(20, 20);
    game.toggle_pause();
    game.advance(62_500_000);
    assert_eq!(game.generation(), 1);
    done(game.key_down_event(Key::R, CTRL));
    assert_eq!(game.generation(), 0);
    assert!(game.population() > 100);
    assert!(game.population() < 300);
    assert!(game.cells().iter().all(|c| *c != CellState::Block));
    let first = game.cells().clone();
    done(game.apply(EditorCommand::Reseed));
    assert_ne!(game.cells(), &first);
    let mut listed = game.alive_cells().clone();
    listed.sort();
    assert_eq!(listed, alive(&game));
    done(game.key_down_event(Key::R, PLAIN));
    done(game.key_down_event(Key::R, SHIFT));
    assert_eq!(listed, alive(&game));
}

#[test]
fn the_left_button_moves_the_cursor() {
    let mut game = new_game(8, 8);
    game.set_selection(2, 2);
    game.apply_resize(16, 60);
    game.mouse_button_down_event(MouseButton::Left, 9, 10);
    assert_eq!(game.cursor(), (4, 5));
    assert_eq!(game.selection(), None);
    // a pointer in the status strip names a row all the same
    game.mouse_button_down_event(MouseButton::Left, 0, 59);
    assert_eq!(game.cursor(), (0, 5));
}

#[test]
fn the_right_button_selects_from_the_cursor() {
    let mut game = new_game(8, 8);
    game.move_cursor(2, 1, false);
    game.mouse_button_down_event(MouseButton::Right, 4, 5);
    assert_eq!(game.selection(), Some((3, 5)));
    assert_eq!(game.cursor(), (2, 1));
    game.mouse_button_down_event(MouseButton::Right, 1, 0);
    assert_eq!(game.selection(), Some((0, 0)));
    game.mouse_button_down_event(MouseButton::Right, 0, 0);
    assert_eq!(game.selection(), Some((7, 0)));
    game.mouse_button_down_event(MouseButton::Other, 4, 5);
    assert_eq!(game.selection(), Some((7, 0)));
}

#[test]
fn dragging_with_the_left_button_selects() {
    let mut game = new_game(8, 8);
    game.mouse_button_down_event(MouseButton::Left, 2, 1);
    game.mouse_button_up_event(MouseButton::Left, 2, 1);
    assert_eq!(game.selection(), None);
    game.mouse_button_up_event(MouseButton::Left, 5, 3);
    assert_eq!(game.selection(), Some((4, 3)));
    assert_eq!(game.cursor(), (2, 1));
    game.mouse_button_up_event(MouseButton::Right, 7, 7);
    game.mouse_button_up_event(MouseButton::Other, 7, 7);
    assert_eq!(game.selection(), Some((4, 3)));
}
