use game_of_life::cell::{black, gray, white, CellState};
use game_of_life::game::Game;
use game_of_life::glyphs::DigitStyle;
use game_of_life::patterns::MacroKind;

const GENERATION: u64 = 62_500_000;

fn new_game(width: i32, height: i32) -> Game {
    Game::init(width, height + 22, 0, DigitStyle::Normal)
}

fn running(width: i32, height: i32) -> Game {
    let mut game = new_game(width, height);
    game.toggle_pause();
    game
}

fn alive(game: &Game) -> Vec<usize> {
    let mut out = Vec::new();
    for (i, cell) in game.cells().iter().enumerate() {
        if *cell == CellState::Alive {
            out.push(i);
        }
    }
    out
}

fn check_alive_list(game: &Game) {
    let mut listed = game.alive_cells().clone();
    listed.sort();
    assert_eq!(listed, alive(game));
    assert_eq!(game.population(), listed.len());
}

fn run(game: &mut Game, generations: u64) {
    let before = game.generation();
    assert_eq!(game.advance(generations * GENERATION), generations);
    assert_eq!(game.generation(), before + generations);
    check_alive_list(game);
}

#[test]
fn a_block_is_a_still_life() {
    let mut game = running(6, 6);
    for (x, y) in [(1, 1), (2, 1), (1, 2), (2, 2)] {
        game.set_cell(x, y, CellState::Alive);
    }
    let before = alive(&game);
    assert_eq!(before, vec![7, 8, 13, 14]);
    run(&mut game, 0);
    assert_eq!(alive(&game), before);
    for _ in 0..5 {
        run(&mut game, 1);
        assert_eq!(alive(&game), before);
    }
    run(&mut game, 100);
    assert_eq!(alive(&game), before);
}

#[test]
fn a_block_over_the_corner_of_a_3x3_torus_is_a_still_life() {
    let mut game = running(3, 3);
    for (x, y) in [(2, 2), (3, 2), (2, 3), (3, 3)] {
        game.set_cell(x, y, CellState::Alive);
    }
    assert_eq!(alive(&game), vec![0, 2, 6, 8]);
    run(&mut game, 7);
    assert_eq!(alive(&game), vec![0, 2, 6, 8]);
}

#[test]
fn a_blinker_turns_and_turns_back() {
    let mut game = running(5, 5);
    for x in 1..4 {
        game.set_cell(x, 2, CellState::Alive);
    }
    assert_eq!(alive(&game), vec![11, 12, 13]);
    run(&mut game, 1);
    assert_eq!(alive(&game), vec![7, 12, 17]);
    run(&mut game, 1);
    assert_eq!(alive(&game), vec![11, 12, 13]);
    run(&mut game, 2);
    assert_eq!(alive(&game), vec![11, 12, 13]);
    run(&mut game, 3);
    assert_eq!(alive(&game), vec![7, 12, 17]);
}

#[test]
fn a_glider_moves_one_cell_diagonally_in_four_generations() {
    let mut game = running(8, 8);
    game.move_cursor(3, 3, false);
    game.place(MacroKind::Glider);
    assert_eq!(alive(&game), vec![19, 28, 34, 35, 36]);
    run(&mut game, 4);
    assert_eq!(alive(&game), vec![28, 37, 43, 44, 45]);
    assert_eq!(game.generation(), 4);
    assert_eq!(game.population(), 5);
}

#[test]
fn a_glider_on_the_smallest_grid_wraps_round_the_edges() {
    let mut game = running(6, 6);
    game.place(MacroKind::Glider);
    assert_eq!(alive(&game), vec![1, 6, 7, 11, 30]);
    run(&mut game, 4);
    assert_eq!(alive(&game), vec![1, 8, 12, 13, 14]);
}

#[test]
fn a_glider_is_the_same_glider_step_by_step_and_in_one_batch() {
    let mut one = running(9, 7);
    let mut other = running(9, 7);
    one.place(MacroKind::Glider);
    other.place(MacroKind::Glider);
    run(&mut one, 12);
    for _ in 0..12 {
        run(&mut other, 1);
    }
    assert_eq!(one.cells(), other.cells());
}

#[test]
fn a_block_cell_never_comes_alive() {
    let mut game = running(5, 5);
    game.set_cell(2, 2, CellState::Block);
    for (x, y) in [(1, 1), (2, 1), (3, 1)] {
        game.set_cell(x, y, CellState::Alive);
    }
    run(&mut game, 1);
    assert_eq!(game.get_cell(2, 2), CellState::Block);
    // the cell above the row is born, the one below is a block and is not
    assert_eq!(alive(&game), vec![2, 7]);
    run(&mut game, 20);
    assert_eq!(game.get_cell(2, 2), CellState::Block);
}

#[test]
fn a_block_cell_counts_as_a_dead_neighbor() {
    let mut with_block = running(6, 6);
    let mut without = running(6, 6);
    // two live cells and a block round the cell (2, 2): no birth
    with_block.set_cell(1, 1, CellState::Alive);
    with_block.set_cell(3, 1, CellState::Alive);
    with_block.set_cell(2, 3, CellState::Block);
    without.set_cell(1, 1, CellState::Alive);
    without.set_cell(3, 1, CellState::Alive);
    run(&mut with_block, 1);
    run(&mut without, 1);
    assert_eq!(with_block.get_cell(2, 2), CellState::Dead);
    assert_eq!(alive(&with_block), alive(&without));
    assert_eq!(with_block.get_cell(2, 3), CellState::Block);
}

#[test]
fn a_lone_cell_dies() {
    let mut game = running(4, 4);
    game.set_cell(1, 1, CellState::Alive);
    run(&mut game, 1);
    assert_eq!(alive(&game), Vec::<usize>::new());
    assert_eq!(game.population(), 0);
}

#[test]
fn a_cell_with_more_than_three_neighbors_dies() {
    let mut game = running(5, 5);
    for (x, y) in [(2, 2), (1, 1), (3, 1), (1, 3), (3, 3)] {
        game.set_cell(x, y, CellState::Alive);
    }
    run(&mut game, 1);
    assert_eq!(game.get_cell(2, 2), CellState::Dead);
}

#[test]
fn the_only_cell_of_a_1x1_grid_is_its_own_eight_neighbors() {
    let mut game = running(1, 1);
    game.set_cell(0, 0, CellState::Alive);
    run(&mut game, 1);
    assert_eq!(game.get_cell(0, 0), CellState::Dead);
    run(&mut game, 1);
    assert_eq!(game.get_cell(0, 0), CellState::Dead);
}

#[test]
fn a_full_2x2_grid_dies_of_its_doubled_neighbors() {
    let mut game = running(2, 2);
    for i in 0..4 {
        game.set_cell(i % 2, i / 2, CellState::Alive);
    }
    run(&mut game, 1);
    assert_eq!(game.population(), 0);
}

#[test]
fn the_frame_follows_the_cells_through_generations() {
    let mut game = running(12, 12);
    game.toggle_cursor();
    game.move_cursor(5, 5, false);
    game.place(MacroKind::Acorn);
    game.set_cell(0, 0, CellState::Block);
    for _ in 0..30 {
        run(&mut game, 1);
        for i in 0..144 {
            let expected = match game.cells()[i] {
                CellState::Dead => black(),
                CellState::Alive => white(),
                CellState::Block => gray(),
            };
            assert_eq!(game.pixels()[i], expected);
        }
    }
}

#[test]
fn the_list_of_live_cells_holds_each_live_cell_once() {
    let mut game = running(10, 10);
    game.random(7);
    check_alive_list(&game);
    for _ in 0..25 {
        run(&mut game, 1);
    }
    game.set_cell(3, 3, CellState::Alive);
    game.set_cell(3, 3, CellState::Alive);
    check_alive_list(&game);
    game.set_cell(3, 3, CellState::Block);
    check_alive_list(&game);
    game.set_selection(4, 4);
    game.fill_selection(CellState::Alive);
    check_alive_list(&game);
    game.place(MacroKind::GliderGun);
    check_alive_list(&game);
    game.reset();
    check_alive_list(&game);
    assert_eq!(game.population(), 0);
}
