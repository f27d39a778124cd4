use game_of_life::cell::CellState;
use game_of_life::game::Game;
use game_of_life::glyphs::DigitStyle;
use game_of_life::patterns::{
    catalog_entry, pattern_offsets, MacroKind, ACORN, GLIDER, GLIDER_GUN, SPACESHIP_L, SPACESHIP_M,
    SPACESHIP_S,
};

fn new_game(width: i32, height: i32) -> Game {
    Game::init(width, height + 22, 0, DigitStyle::Normal)
}

fn alive(game: &Game) -> Vec<usize> {
    let mut out = Vec::new();
    for (i, cell) in game.cells().iter().enumerate() {
        if *cell == CellState::Alive {
            out.push(i);
        }
    }
    out
}

fn picture(code: &[u8], w: i32, h: i32) -> Vec<String> {
    let mut rows = vec![vec![b'.'; w as usize]; h as usize];
    for (x, y) in pattern_offsets(code, w, h, false, false, false) {
        rows[(y + h / 2) as usize][(x + w / 2) as usize] = b'#';
    }
    rows.into_iter().map(|row| String::from_utf8(row).unwrap()).collect()
}

#[test]
fn the_glider_is_coded_over_its_box() {
    assert_eq!(picture(&GLIDER, 3, 3), vec![".#.", "..#", "###"]);
}

#[test]
fn the_spaceships_are_coded_over_their_boxes() {
    assert_eq!(picture(&SPACESHIP_S, 5, 4), vec!["...#.", "....#", "#...#", ".####"]);
    assert_eq!(picture(&SPACESHIP_M, 6, 4), vec!["....#.", ".....#", "#....#", ".#####"]);
    assert_eq!(picture(&SPACESHIP_L, 7, 4), vec![".....#.", "......#", "#.....#", ".######"]);
}

#[test]
fn the_acorn_is_coded_over_its_box() {
    assert_eq!(picture(&ACORN, 7, 3), vec![".#.....", "...#...", "##..###"]);
}

#[test]
fn the_glider_gun_is_coded_over_its_box() {
    assert_eq!(
        picture(&GLIDER_GUN, 36, 9),
        vec![
            "........................#...........",
            "......................#.#...........",
            "............##......##............##",
            "...........#...#....##............##",
            "##........#.....#...##..............",
            "##........#...#.##....#.#...........",
            "..........#.....#.......#...........",
            "...........#...#....................",
            "............##......................",
        ]
    );
}

#[test]
fn the_catalog_gives_each_pattern_its_code_and_its_box() {
    assert_eq!(catalog_entry(MacroKind::Glider), (GLIDER.to_vec(), 3, 3));
    assert_eq!(catalog_entry(MacroKind::GliderGun), (GLIDER_GUN.to_vec(), 36, 9));
    assert_eq!(catalog_entry(MacroKind::SpaceshipSmall), (SPACESHIP_S.to_vec(), 5, 4));
    assert_eq!(catalog_entry(MacroKind::SpaceshipMedium), (SPACESHIP_M.to_vec(), 6, 4));
    assert_eq!(catalog_entry(MacroKind::SpaceshipLarge), (SPACESHIP_L.to_vec(), 7, 4));
    assert_eq!(catalog_entry(MacroKind::Acorn), (ACORN.to_vec(), 7, 3));
}

#[test]
fn offsets_are_counted_from_the_centre_cell_of_the_box() {
    assert_eq!(
        pattern_offsets(&GLIDER, 3, 3, false, false, false),
        vec![(0, -1), (1, 0), (-1, 1), (0, 1), (1, 1)]
    );
    // an even box has its centre right of and below the middle
    assert_eq!(
        pattern_offsets(&[0, 0, 0, 0], 2, 2, false, false, false),
        vec![(-1, -1), (0, -1), (-1, 0), (0, 0)]
    );
    assert_eq!(
        pattern_offsets(&[0, 2, 0, 0, 2, 0], 4, 2, false, false, false),
        vec![(-2, -1), (1, -1), (-2, 0), (1, 0)]
    );
}

#[test]
fn a_skip_moves_on_without_a_mark() {
    assert_eq!(pattern_offsets(&[], 3, 3, false, false, false), vec![]);
    assert_eq!(pattern_offsets(&[5, 255, 1], 3, 3, false, false, false), vec![]);
    assert_eq!(pattern_offsets(&[4, 0], 3, 3, false, false, false), vec![(0, 0)]);
    // marks past the box run on row by row
    assert_eq!(pattern_offsets(&[255, 0], 3, 3, false, false, false), vec![(-1, 84)]);
}

#[test]
fn mirroring_in_x_negates_the_x_offsets() {
    let plain = pattern_offsets(&GLIDER, 3, 3, false, false, false);
    let mirrored = pattern_offsets(&GLIDER, 3, 3, false, true, false);
    assert_eq!(mirrored, vec![(0, -1), (-1, 0), (1, 1), (0, 1), (-1, 1)]);
    for (a, b) in plain.iter().zip(mirrored.iter()) {
        assert_eq!((-a.0, a.1), *b);
    }
}

#[test]
fn mirroring_in_y_negates_the_y_offsets() {
    assert_eq!(
        pattern_offsets(&GLIDER, 3, 3, false, false, true),
        vec![(0, 1), (1, 0), (-1, -1), (0, -1), (1, -1)]
    );
}

#[test]
fn swapping_exchanges_the_offsets() {
    let plain = pattern_offsets(&GLIDER, 3, 3, false, false, false);
    let swapped = pattern_offsets(&GLIDER, 3, 3, true, false, false);
    assert_eq!(swapped, vec![(-1, 0), (0, 1), (1, -1), (1, 0), (1, 1)]);
    for (a, b) in plain.iter().zip(swapped.iter()) {
        assert_eq!((a.1, a.0), *b);
    }
}

#[test]
fn the_swap_comes_before_the_mirror() {
    let plain = pattern_offsets(&GLIDER, 3, 3, false, false, false);
    let both = pattern_offsets(&GLIDER, 3, 3, true, true, false);
    assert_eq!(both, vec![(1, 0), (0, 1), (-1, -1), (-1, 0), (-1, 1)]);
    for (a, b) in plain.iter().zip(both.iter()) {
        assert_eq!((-a.1, a.0), *b);
    }
    assert_eq!(
        pattern_offsets(&GLIDER, 3, 3, true, true, true),
        vec![(1, 0), (0, -1), (-1, 1), (-1, 0), (-1, -1)]
    );
}

#[test]
fn a_pattern_is_placed_round_the_cursor() {
    let mut game = new_game(10, 10);
    game.move_cursor(5, 5, false);
    game.place(MacroKind::Acorn);
    assert_eq!(alive(&game), vec![43, 55, 62, 63, 66, 67, 68]);
    assert_eq!(game.population(), 7);
    assert_eq!(game.cursor(), (5, 5));
}

#[test]
fn a_pattern_is_placed_under_the_transform_of_the_session() {
    let mut game = new_game(8, 8);
    game.move_cursor(3, 3, false);
    game.toggle_transform(false, true, false);
    assert_eq!(game.transform(), (false, true, false));
    game.place_macro(&GLIDER, 3, 3);
    // (0,-1) (-1,0) (1,1) (0,1) (-1,1) from (3,3)
    assert_eq!(alive(&game), vec![19, 26, 34, 35, 36]);

    let mut game = new_game(8, 8);
    game.move_cursor(3, 3, false);
    game.toggle_transform(true, false, false);
    game.place_macro(&GLIDER, 3, 3);
    // (-1,0) (0,1) (1,-1) (1,0) (1,1) from (3,3)
    assert_eq!(alive(&game), vec![20, 26, 28, 35, 36]);

    let mut game = new_game(8, 8);
    game.move_cursor(3, 3, false);
    game.toggle_transform(true, true, false);
    game.place_macro(&GLIDER, 3, 3);
    // (1,0) (0,1) (-1,-1) (-1,0) (-1,1) from (3,3)
    assert_eq!(alive(&game), vec![18, 26, 28, 34, 35]);
}

#[test]
fn placing_turns_cells_on_and_none_off() {
    let mut game = new_game(8, 8);
    game.set_cell(0, 0, CellState::Alive);
    game.set_cell(3, 3, CellState::Alive);
    game.set_cell(7, 7, CellState::Block);
    game.set_cell(4, 3, CellState::Block);
    game.move_cursor(3, 3, false);
    game.place(MacroKind::Glider);
    assert_eq!(alive(&game), vec![0, 19, 27, 28, 34, 35, 36]);
    assert_eq!(game.get_cell(7, 7), CellState::Block);
    game.place(MacroKind::Glider);
    assert_eq!(alive(&game), vec![0, 19, 27, 28, 34, 35, 36]);
}

#[test]
fn a_pattern_wider_than_the_grid_wraps_round_it() {
    let mut game = new_game(5, 4);
    game.place(MacroKind::GliderGun);
    assert!(game.population() > 0);
    let mut listed = game.alive_cells().clone();
    listed.sort();
    assert_eq!(listed, alive(&game));
}
