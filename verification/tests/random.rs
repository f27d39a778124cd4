use game_of_life::cell::{black, white, CellState};
use game_of_life::game::Game;
use game_of_life::glyphs::DigitStyle;
use game_of_life::rng::cell_of_word;
use rand::rngs::StdRng;
use rand::{RngCore, SeedableRng};

fn new_game(width: i32, height: i32, seed: u64) -> Game {
    Game::init(width, height + 22, seed, DigitStyle::Normal)
}

fn drawn(seed: u64, n: usize) -> Vec<CellState> {
    let mut rng = StdRng::seed_from_u64(seed);
    let mut out = Vec::new();
    for _ in 0..n {
        if rng.next_u64() % 2 == 1 {
            out.push(CellState::Alive);
        } else {
            out.push(CellState::Dead);
        }
    }
    out
}

#[test]
fn an_odd_word_makes_a_live_cell() {
    assert_eq!(cell_of_word(0), CellState::Dead);
    assert_eq!(cell_of_word(1), CellState::Alive);
    assert_eq!(cell_of_word(2), CellState::Dead);
    assert_eq!(cell_of_word(u64::MAX), CellState::Alive);
    assert_eq!(cell_of_word(u64::MAX - 1), CellState::Dead);
    assert_eq!(cell_of_word(0x8000_0000_0000_0000), CellState::Dead);
}

#[test]
fn a_cell_is_alive_where_the_word_drawn_for_it_is_odd() {
    for seed in [1u64, 2, 42, u64::MAX] {
        let mut game = new_game(16, 12, 0);
        game.random(seed);
        assert_eq!(game.cells(), &drawn(seed, 16 * 12));
    }
}

#[test]
fn the_same_seed_gives_the_same_grid() {
    let mut one = new_game(20, 20, 0);
    let mut other = new_game(20, 20, 0);
    one.random(12345);
    other.random(12345);
    assert_eq!(one.cells(), other.cells());
    assert_eq!(one.pixels(), other.pixels());
    one.random(12345);
    assert_eq!(one.cells(), other.cells());
}

#[test]
fn another_seed_gives_another_grid() {
    let mut one = new_game(20, 20, 0);
    let mut other = new_game(20, 20, 0);
    one.random(1);
    other.random(2);
    assert_ne!(one.cells(), other.cells());
    assert!(one.population() > 100);
    assert!(one.population() < 300);
}

#[test]
fn the_words_are_drawn_one_after_another() {
    let mut game = new_game(64, 1, 0);
    game.random(9);
    let cells = game.cells();
    assert!(cells.iter().any(|c| *c == CellState::Alive));
    assert!(cells.iter().any(|c| *c == CellState::Dead));
    assert!(cells.iter().all(|c| *c != CellState::Block));
}

#[test]
fn a_session_started_with_a_seed_is_filled_from_it() {
    let game = new_game(16, 12, 77);
    assert_eq!(game.cells(), &drawn(77, 16 * 12));
    let empty = new_game(16, 12, 0);
    assert_eq!(empty.population(), 0);
}

#[test]
fn a_random_fill_lists_and_paints_the_live_cells() {
    let mut game = new_game(16, 12, 0);
    game.toggle_cursor();
    game.set_cell(0, 0, CellState::Block);
    game.toggle_pause();
    game.advance(1_000_000_000);
    game.random(5);
    assert_eq!(game.generation(), 0);
    let mut listed = game.alive_cells().clone();
    listed.sort();
    let mut expected = Vec::new();
    for (i, cell) in game.cells().iter().enumerate() {
        if *cell == CellState::Alive {
            expected.push(i);
            assert_eq!(game.pixels()[i], white());
        } else {
            assert_eq!(game.pixels()[i], black());
        }
    }
    assert_eq!(listed, expected);
    assert_eq!(game.population(), expected.len());
}

#[test]
fn a_reseed_fills_the_grid_and_starts_anew() {
    let mut game = new_game(20, 20, 0);
    game.toggle_pause();
    game.advance(1_000_000_000);
    game.reseed();
    assert_eq!(game.generation(), 0);
    assert!(game.population() > 100);
    assert!(game.population() < 300);
    let first = game.cells().clone();
    game.reseed();
    assert_ne!(game.cells(), &first);
}
