use game_of_life::cell::CellState;
use game_of_life::game::Game;
use game_of_life::glyphs::DigitStyle;

fn new_game(width: i32, height: i32) -> Game {
    Game::init(width, height + 22, 0, DigitStyle::Normal)
}

fn alive(game: &Game) -> Vec<usize> {
    let mut out = Vec::new();
    for (i, cell) in game.cells().iter().enumerate() {
        if *cell == CellState::Alive {
            out.push(i);
        }
    }
    out
}

fn blocks(game: &Game) -> Vec<usize> {
    let mut out = Vec::new();
    for (i, cell) in game.cells().iter().enumerate() {
        if *cell == CellState::Block {
            out.push(i);
        }
    }
    out
}

#[test]
fn a_new_session_is_empty_and_paused() {
    let game = new_game(8, 6);
    assert_eq!(game.width(), 8);
    assert_eq!(game.height(), 6);
    assert_eq!(game.window_size(), (8, 28));
    assert_eq!(game.cells().len(), 48);
    assert_eq!(game.pixels().len(), 8 * 28);
    assert!(game.cells().iter().all(|c| *c == CellState::Dead));
    assert_eq!(game.alive_cells().len(), 0);
    assert_eq!(game.population(), 0);
    assert_eq!(game.generation(), 0);
    assert_eq!(game.cursor(), (0, 0));
    assert_eq!(game.selection(), None);
    assert!(game.is_paused());
    assert!(!game.is_cursor_hidden());
    assert_eq!(game.speed(), 16);
    assert_eq!(game.transform(), (false, false, false));
    assert_eq!(game.style(), DigitStyle::Normal);
}

#[test]
fn any_integers_name_a_cell() {
    let game = new_game(8, 6);
    assert_eq!(game.coord_index(0, 0), 0);
    assert_eq!(game.coord_index(7, 5), 47);
    assert_eq!(game.coord_index(8, 6), 0);
    assert_eq!(game.coord_index(-1, -1), 47);
    assert_eq!(game.coord_index(-9, 13), 15);
    assert_eq!(game.coord_index(i32::MAX, i32::MIN), (4 * 8 + 7) as usize);
    for k in -3..4 {
        assert_eq!(game.coord_index(3 + 8 * k, 2), 19);
        assert_eq!(game.coord_index(3, 2 + 6 * k), 19);
    }
}

#[test]
fn a_cell_holds_what_it_was_set_to() {
    let mut game = new_game(8, 8);
    game.set_cell(3, 3, CellState::Alive);
    assert_eq!(game.get_cell(3, 3), CellState::Alive);
    assert_eq!(game.get_cell(11, -5), CellState::Alive);
    assert_eq!(game.alive_cells(), &vec![27]);
    game.set_cell(-1, -1, CellState::Alive);
    game.set_cell(8 + 3, 8 * 5 + 2, CellState::Alive);
    assert_eq!(alive(&game), vec![19, 27, 63]);
    game.set_cell(3, 3, CellState::Block);
    assert_eq!(game.get_cell(3, 3), CellState::Block);
    assert_eq!(alive(&game), vec![19, 63]);
    game.set_cell(3, 3, CellState::Dead);
    assert_eq!(game.get_cell(3, 3), CellState::Dead);
    game.set_cell(3, 2, CellState::Dead);
    assert_eq!(alive(&game), vec![63]);
    assert_eq!(game.population(), 1);
}

#[test]
fn setting_a_cell_to_what_it_is_changes_nothing() {
    let mut game = new_game(8, 8);
    game.set_cell(3, 3, CellState::Alive);
    game.set_cell(5, 1, CellState::Alive);
    let listed = game.alive_cells().clone();
    let pixels = game.pixels().clone();
    game.set_cell(3, 3, CellState::Alive);
    game.set_cell(0, 0, CellState::Dead);
    assert_eq!(game.alive_cells(), &listed);
    assert_eq!(game.pixels(), &pixels);
    assert_eq!(game.population(), 2);
}

#[test]
fn the_cursor_is_folded_into_the_grid() {
    let mut game = new_game(8, 6);
    game.move_cursor(3, 4, false);
    assert_eq!(game.cursor(), (3, 4));
    game.move_cursor(9, -1, false);
    assert_eq!(game.cursor(), (1, 5));
    game.move_cursor(-17, 600, false);
    assert_eq!(game.cursor(), (7, 0));
    game.move_cursor(i32::MIN, i32::MAX, false);
    assert_eq!(game.cursor(), (0, 1));
}

#[test]
fn moving_the_cursor_drops_the_selection_unless_told_to_keep_it() {
    let mut game = new_game(8, 6);
    game.set_selection(3, 2);
    game.move_cursor(2, 2, true);
    assert_eq!(game.selection(), Some((3, 2)));
    assert_eq!(game.cursor(), (2, 2));
    game.move_cursor(4, 4, false);
    assert_eq!(game.selection(), None);
}

#[test]
fn a_selection_is_folded_into_the_grid() {
    let mut game = new_game(8, 6);
    game.set_selection(3, 2);
    assert_eq!(game.selection(), Some((3, 2)));
    assert_eq!(game.get_selection(), (3, 2));
    game.set_selection(8, 6);
    assert_eq!(game.selection(), Some((0, 0)));
    game.set_selection(-1, 10);
    assert_eq!(game.selection(), Some((7, 4)));
    game.set_selection(0, 0);
    assert_eq!(game.selection(), Some((0, 0)));
}

#[test]
fn without_a_selection_the_whole_grid_is_selected() {
    let mut game = new_game(8, 6);
    assert_eq!(game.get_selection(), (8, 6));
    assert_eq!(game.get_selection_end(), (7, 5));
    game.move_cursor(5, 4, false);
    assert_eq!(game.get_selection_end(), (12, 9));
}

#[test]
fn the_far_corner_is_the_last_cell_of_the_selection() {
    let mut game = new_game(8, 6);
    game.move_cursor(6, 5, false);
    game.set_selection(3, 2);
    assert_eq!(game.get_selection_end(), (8, 6));
    game.set_selection(1, 1);
    assert_eq!(game.get_selection_end(), (6, 5));
    game.set_selection(0, 0);
    assert_eq!(game.get_selection_end(), (5, 4));
    game.reselect(Some((8, 6)));
    assert_eq!(game.selection(), Some((8, 6)));
    assert_eq!(game.get_selection_end(), (13, 10));
}

#[test]
fn filling_sets_every_cell_of_the_selection() {
    let mut game = new_game(8, 8);
    game.move_cursor(2, 1, false);
    game.set_selection(3, 2);
    game.fill_selection(CellState::Alive);
    assert_eq!(alive(&game), vec![10, 11, 12, 18, 19, 20]);
    assert_eq!(game.population(), 6);
    game.set_selection(2, 1);
    game.fill_selection(CellState::Block);
    assert_eq!(blocks(&game), vec![10, 11]);
    assert_eq!(alive(&game), vec![12, 18, 19, 20]);
    game.set_selection(3, 2);
    game.fill_selection(CellState::Dead);
    assert_eq!(game.population(), 0);
    assert_eq!(blocks(&game), Vec::<usize>::new());
}

#[test]
fn filling_a_selection_over_the_edge_wraps() {
    let mut game = new_game(8, 8);
    game.move_cursor(6, 7, false);
    game.set_selection(3, 2);
    game.fill_selection(CellState::Block);
    assert_eq!(blocks(&game), vec![0, 6, 7, 56, 62, 63]);
}

#[test]
fn filling_without_a_selection_fills_the_grid() {
    let mut game = new_game(5, 4);
    game.move_cursor(3, 2, false);
    game.fill_selection(CellState::Alive);
    assert_eq!(game.population(), 20);
    let mut listed = game.alive_cells().clone();
    listed.sort();
    assert_eq!(listed, (0..20).collect::<Vec<usize>>());
}

#[test]
fn filling_an_empty_selection_fills_nothing() {
    let mut game = new_game(5, 4);
    game.set_selection(0, 3);
    game.fill_selection(CellState::Alive);
    assert_eq!(game.population(), 0);
    game.set_selection(3, 0);
    game.fill_selection(CellState::Alive);
    assert_eq!(game.population(), 0);
}

#[test]
fn a_reset_empties_the_grid() {
    let mut game = new_game(5, 4);
    game.fill_selection(CellState::Alive);
    game.set_cell(1, 1, CellState::Block);
    game.set_selection(2, 2);
    game.reset();
    assert!(game.cells().iter().all(|c| *c == CellState::Dead));
    assert_eq!(game.population(), 0);
    assert_eq!(game.generation(), 0);
    assert_eq!(game.selection(), Some((2, 2)));
}

#[test]
fn the_window_takes_a_new_size_if_it_is_one() {
    let mut game = new_game(8, 8);
    game.apply_resize(16, 60);
    assert_eq!(game.window_size(), (16, 60));
    game.apply_resize(0, 60);
    assert_eq!(game.window_size(), (16, 60));
    game.apply_resize(30, -1);
    assert_eq!(game.window_size(), (16, 60));
    game.apply_resize(1, 1);
    assert_eq!(game.window_size(), (1, 1));
}

#[test]
fn a_pointer_is_scaled_from_the_window_to_the_frame() {
    let mut game = new_game(8, 8);
    assert_eq!(game.mouse_to_pixel(0, 0), (0, 0));
    assert_eq!(game.mouse_to_pixel(7, 29), (7, 29));
    game.apply_resize(16, 60);
    assert_eq!(game.mouse_to_pixel(9, 30), (4, 15));
    assert_eq!(game.mouse_to_pixel(15, 59), (7, 29));
    assert_eq!(game.mouse_to_pixel(16, 60), (8, 30));
    // towards zero
    assert_eq!(game.mouse_to_pixel(-1, -1), (0, 0));
    assert_eq!(game.mouse_to_pixel(-2, -3), (-1, -1));
    game.apply_resize(1, 1);
    assert_eq!(game.mouse_to_pixel(i32::MAX, i32::MIN), (i32::MAX, i32::MIN));
    assert_eq!(game.mouse_to_pixel(1000, -1000), (8000, -30000));
}
