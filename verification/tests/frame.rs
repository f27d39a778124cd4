use game_of_life::canvas::{draw_bitmap, fill_rect, set_pixel_nowrap};
use game_of_life::cell::{aqua, black, cell_color, gray, red, white, CellState, Rgb};
use game_of_life::game::Game;
use game_of_life::glyphs::{count_digits, draw_int, DigitStyle, DIGIT_BITMAP};

const W: i32 = 256;
const H: i32 = 64;

fn new_game(width: i32, height: i32) -> Game {
    Game::init(width, height + 22, 0, DigitStyle::Normal)
}

fn at(game: &Game, x: i32, y: i32) -> Rgb {
    game.pixels()[(y * game.width() + x) as usize]
}

fn painted(pixels: &Vec<Rgb>, color: Rgb) -> Vec<usize> {
    let mut out = Vec::new();
    for (i, pixel) in pixels.iter().enumerate() {
        if *pixel == color {
            out.push(i);
        }
    }
    out
}

#[test]
fn the_colours_are_what_they_are() {
    assert_eq!(black(), Rgb { r: 0, g: 0, b: 0 });
    assert_eq!(gray(), Rgb { r: 128, g: 128, b: 128 });
    assert_eq!(white(), Rgb { r: 255, g: 255, b: 255 });
    assert_eq!(red(), Rgb { r: 255, g: 0, b: 0 });
    assert_eq!(aqua(), Rgb { r: 0, g: 255, b: 255 });
    assert_eq!(cell_color(CellState::Dead), black());
    assert_eq!(cell_color(CellState::Alive), white());
    assert_eq!(cell_color(CellState::Block), gray());
}

#[test]
fn a_pixel_is_set_by_its_index() {
    let mut pixels = vec![black(); 12];
    set_pixel_nowrap(&mut pixels, 4, 1, 2, white());
    assert_eq!(painted(&pixels, white()), vec![9]);
    // what does not fit in a row runs on into the next
    set_pixel_nowrap(&mut pixels, 4, 5, 0, red());
    assert_eq!(painted(&pixels, red()), vec![5]);
}

#[test]
fn a_pixel_outside_the_frame_is_dropped() {
    let mut pixels = vec![black(); 12];
    set_pixel_nowrap(&mut pixels, 4, 0, 3, white());
    set_pixel_nowrap(&mut pixels, 4, 12, 0, white());
    set_pixel_nowrap(&mut pixels, 4, -1, 1, white());
    set_pixel_nowrap(&mut pixels, 4, 1, -1, white());
    set_pixel_nowrap(&mut pixels, 4, i32::MAX, i32::MAX, white());
    set_pixel_nowrap(&mut pixels, 4, i32::MIN, i32::MIN, white());
    assert_eq!(pixels, vec![black(); 12]);
}

#[test]
fn a_rectangle_is_filled() {
    let mut pixels = vec![black(); 12];
    fill_rect(&mut pixels, 4, 1, 1, 2, 2, white());
    assert_eq!(painted(&pixels, white()), vec![5, 6, 9, 10]);
    fill_rect(&mut pixels, 4, 0, 0, 0, 3, red());
    fill_rect(&mut pixels, 4, 0, 0, 3, 0, red());
    fill_rect(&mut pixels, 4, 0, 0, -1, -1, red());
    assert_eq!(painted(&pixels, red()), Vec::<usize>::new());
    fill_rect(&mut pixels, 4, 2, 2, 5, 5, red());
    assert_eq!(painted(&pixels, red()), vec![10, 11]);
}

#[test]
fn a_bitmap_is_drawn_column_by_column_lowest_bit_on_top() {
    let mut pixels = vec![black(); 16];
    draw_bitmap(&mut pixels, 4, &[0b101, 0, 0b10], 1, 0, white());
    assert_eq!(painted(&pixels, white()), vec![1, 7, 9]);
    let mut pixels = vec![black(); 4 * 9];
    draw_bitmap(&mut pixels, 4, &[0b11111111], 3, 1, white());
    assert_eq!(painted(&pixels, white()), vec![7, 11, 15, 19, 23, 27, 31, 35]);
}

#[test]
fn a_number_has_as_many_digits_as_it_needs() {
    assert_eq!(count_digits(0), 1);
    assert_eq!(count_digits(9), 1);
    assert_eq!(count_digits(10), 2);
    assert_eq!(count_digits(99_999), 5);
    assert_eq!(count_digits(100_000), 6);
    assert_eq!(count_digits(u64::MAX), 20);
}

#[test]
fn the_styles_have_their_places_in_the_table() {
    assert_eq!((DigitStyle::Normal.first(), DigitStyle::Normal.base()), (0, 10));
    assert_eq!((DigitStyle::Hex.first(), DigitStyle::Hex.base()), (0, 16));
    assert_eq!((DigitStyle::SevenSegment.first(), DigitStyle::SevenSegment.base()), (23, 10));
    assert_eq!((DigitStyle::SevenSegmentHex.first(), DigitStyle::SevenSegmentHex.base()), (23, 16));
    assert_eq!((DigitStyle::Straight.first(), DigitStyle::Straight.base()), (39, 10));
    assert_eq!(DIGIT_BITMAP.len(), 49);
    assert_eq!(DIGIT_BITMAP[7], [0b0000001, 0b1100001, 0b0011001, 0b0000111]);
    assert_eq!(DIGIT_BITMAP[22], [0, 0b1011111, 0, 0b1011111]);
    assert_eq!(DIGIT_BITMAP[48], [0b0000110, 0b1001001, 0b1001001, 0b0111110]);
}

fn glyph_at(index: usize, x: i32, y: i32, width: i32) -> Vec<usize> {
    let mut out = Vec::new();
    for (i, line) in DIGIT_BITMAP[index].iter().enumerate() {
        for b in 0..8 {
            if line & (1 << b) != 0 {
                out.push(((y + b) * width + x + i as i32) as usize);
            }
        }
    }
    out.sort();
    out
}

#[test]
fn a_digit_is_drawn_as_its_glyph() {
    let mut pixels = vec![black(); 100];
    draw_int(&mut pixels, 10, DigitStyle::Normal, 7, 1, 0, 0, white(), false);
    assert_eq!(painted(&pixels, white()), vec![0, 1, 2, 3, 13, 23, 32, 42, 51, 61]);
    assert_eq!(painted(&pixels, white()), glyph_at(7, 0, 0, 10));
}

#[test]
fn a_number_is_drawn_right_aligned_without_leading_zeros() {
    let mut pixels = vec![black(); 30 * 10];
    draw_int(&mut pixels, 30, DigitStyle::Normal, 42, 4, 2, 1, white(), false);
    let mut expected = glyph_at(4, 2 + 10, 1, 30);
    expected.extend(glyph_at(2, 2 + 15, 1, 30));
    expected.sort();
    assert_eq!(painted(&pixels, white()), expected);
}

#[test]
fn a_number_is_drawn_over_a_cleared_ground_if_asked() {
    let mut pixels = vec![red(); 30 * 10];
    draw_int(&mut pixels, 30, DigitStyle::Straight, 3, 2, 1, 1, white(), true);
    assert_eq!(painted(&pixels, white()), glyph_at(39 + 3, 1 + 5, 1, 30));
    let mut ground = Vec::new();
    for y in 1..8 {
        for x in 1..11 {
            ground.push((y * 30 + x) as usize);
        }
    }
    let mut cleared = painted(&pixels, black());
    cleared.extend(painted(&pixels, white()));
    cleared.sort();
    assert_eq!(cleared, ground);
}

#[test]
fn the_styles_draw_in_their_bases() {
    let mut pixels = vec![black(); 30 * 10];
    draw_int(&mut pixels, 30, DigitStyle::Hex, 255, 2, 0, 0, white(), false);
    let mut expected = glyph_at(15, 0, 0, 30);
    expected.extend(glyph_at(15, 5, 0, 30));
    expected.sort();
    assert_eq!(painted(&pixels, white()), expected);
    let mut pixels = vec![black(); 30 * 10];
    draw_int(&mut pixels, 30, DigitStyle::SevenSegmentHex, 0x1a, 2, 0, 0, white(), false);
    let mut expected = glyph_at(23 + 1, 0, 0, 30);
    expected.extend(glyph_at(23 + 10, 5, 0, 30));
    expected.sort();
    assert_eq!(painted(&pixels, white()), expected);
}

#[test]
fn a_number_too_large_for_its_places_ends_in_a_mark() {
    let mut pixels = vec![black(); 30 * 10];
    draw_int(&mut pixels, 30, DigitStyle::Normal, 12345, 2, 0, 0, white(), false);
    let mut expected = glyph_at(22, 0, 0, 30);
    expected.extend(glyph_at(5, 5, 0, 30));
    expected.sort();
    assert_eq!(painted(&pixels, white()), expected);
    // what is left and is in the table is drawn from the table
    let mut pixels = vec![black(); 30 * 10];
    draw_int(&mut pixels, 30, DigitStyle::SevenSegment, 12, 1, 0, 0, white(), false);
    assert_eq!(painted(&pixels, white()), glyph_at(12, 0, 0, 30));
    let mut pixels = vec![black(); 30 * 10];
    draw_int(&mut pixels, 30, DigitStyle::Normal, 9, 0, 0, 0, white(), false);
    assert_eq!(painted(&pixels, white()), glyph_at(9, 0, 0, 30));
}

#[test]
fn the_strip_is_framed() {
    let game = new_game(W, H);
    assert_eq!(game.pixels().len(), (W * (H + 22)) as usize);
    for x in 0..W {
        assert_eq!(at(&game, x, H), aqua());
        assert_eq!(at(&game, x, H + 11), aqua());
    }
    for y in H..H + 22 {
        assert_eq!(at(&game, 0, y), aqua());
        assert_eq!(at(&game, 95, y), aqua());
    }
    // 16384 cells have five digits
    for y in H..H + 11 {
        assert_eq!(at(&game, 211, y), aqua());
    }
    assert_eq!(at(&game, 211, H + 12), black());
    assert_eq!(at(&game, 1, H + 1), black());
}

#[test]
fn the_strip_is_labelled() {
    let game = new_game(W, H);
    // the first column of the G of Generation
    assert_eq!(at(&game, 3, H + 2), black());
    for y in H + 3..H + 8 {
        assert_eq!(at(&game, 3, y), gray());
    }
    assert_eq!(at(&game, 3, H + 8), black());
    assert_eq!(at(&game, 107, H + 10), gray());
    // the slash before the number of cells
    assert_eq!(at(&game, 181, H + 2 + 5), gray());
    assert_eq!(at(&game, 183, H + 2), gray());
}

#[test]
fn the_strip_shows_generation_population_speed_and_size() {
    let game = new_game(W, H);
    let width = W;
    let white_at = |index: usize, x: i32, y: i32| {
        for p in glyph_at(index, x, y, width) {
            assert_eq!(game.pixels()[p], white());
        }
    };
    // generation 0 and population 0, in the last of eight places
    white_at(0, 54 + 35, H + 2);
    white_at(0, 141 + 35, H + 2);
    assert_eq!(at(&game, 54, H + 3), black());
    // 16 generations a second
    white_at(1, 74 + 10, H + 13);
    white_at(6, 74 + 15, H + 13);
    // 16384 cells
    for (place, digit) in [1usize, 6, 3, 8, 4].iter().enumerate() {
        white_at(*digit, 185 + 5 * place as i32, H + 2);
    }
    // 256 x 64
    for (place, digit) in [2usize, 5, 6].iter().enumerate() {
        white_at(*digit, 214 + 5 * place as i32, H + 2);
    }
    assert_eq!(at(&game, 229 + 2, H + 2 + 3), gray());
    white_at(6, 235, H + 2);
    white_at(4, 240, H + 2);
}

#[test]
fn the_strip_follows_the_population() {
    let mut game = new_game(W, H);
    game.move_cursor(100, 30, false);
    game.place(game_of_life::patterns::MacroKind::Glider);
    for p in glyph_at(5, 141 + 35, H + 2, W) {
        assert_eq!(game.pixels()[p], white());
    }
    game.set_speed(8000);
    for (place, digit) in [8usize, 0, 0, 0].iter().enumerate() {
        for p in glyph_at(*digit, 74 + 5 * place as i32, H + 13, W) {
            assert_eq!(game.pixels()[p], white());
        }
    }
}

#[test]
fn the_strip_shows_the_transform() {
    let mut game = new_game(W, H);
    let dot = |game: &Game, x: i32, y: i32| at(game, 133 + 36 + x, H + 16 + y);
    for (x, y) in [(0, -1), (1, 0), (-1, 1), (0, 1), (1, 1)] {
        assert_eq!(dot(&game, x, y), white());
    }
    assert_eq!(dot(&game, 0, 0), black());
    game.toggle_transform(false, true, false);
    for (x, y) in [(0, -1), (-1, 0), (1, 1), (0, 1), (-1, 1)] {
        assert_eq!(dot(&game, x, y), white());
    }
    assert_eq!(dot(&game, 1, 0), black());
    // the icon of the mirror in x is red
    assert_eq!(at(&game, 133 + 16 + 3, H + 13), red());
    assert_eq!(at(&game, 133 + 8 + 2, H + 13 + 3), black());
    game.toggle_transform(true, true, false);
    assert_eq!(at(&game, 133 + 16 + 3, H + 13), black());
    assert_eq!(at(&game, 133 + 8 + 2, H + 13 + 3), Rgb { r: 0, g: 128, b: 255 });
}

#[test]
fn the_cursor_is_a_red_cross_round_its_cell() {
    let mut game = new_game(W, H);
    for d in 2..5 {
        assert_eq!(at(&game, d, 0), red());
        assert_eq!(at(&game, W - d, 0), red());
        assert_eq!(at(&game, 0, d), red());
        assert_eq!(at(&game, 0, H - d), red());
    }
    assert_eq!(at(&game, 0, 0), black());
    assert_eq!(at(&game, 1, 0), black());
    assert_eq!(at(&game, 5, 0), black());
    game.move_cursor(20, 30, false);
    for d in 2..5 {
        assert_eq!(at(&game, d, 0), black());
        assert_eq!(at(&game, W - d, 0), black());
        assert_eq!(at(&game, 0, d), black());
        assert_eq!(at(&game, 0, H - d), black());
        assert_eq!(at(&game, 20 + d, 30), red());
        assert_eq!(at(&game, 20 - d, 30), red());
        assert_eq!(at(&game, 20, 30 + d), red());
        assert_eq!(at(&game, 20, 30 - d), red());
    }
    assert_eq!(painted(game.pixels(), red()).len(), 12);
}

#[test]
fn the_cursor_shows_the_cells_beneath_when_it_goes() {
    let mut game = new_game(W, H);
    game.set_cell(3, 0, CellState::Alive);
    game.set_cell(0, 2, CellState::Block);
    assert_eq!(at(&game, 3, 0), white());
    game.move_cursor(0, 0, false);
    assert_eq!(at(&game, 3, 0), red());
    assert_eq!(at(&game, 0, 2), red());
    game.move_cursor(100, 40, false);
    assert_eq!(at(&game, 3, 0), white());
    assert_eq!(at(&game, 0, 2), gray());
}

#[test]
fn a_selection_is_marked_in_aqua() {
    let mut game = new_game(W, H);
    game.move_cursor(10, 10, false);
    game.set_selection(20, 16);
    // the far corner is (29, 25)
    for (x, y) in [(10, 25), (29, 10), (29, 25), (27, 25), (26, 25), (25, 25), (29, 23), (29, 22), (29, 21)] {
        assert_eq!(at(&game, x, y), aqua());
    }
    assert_eq!(at(&game, 28, 25), black());
    // dashes: two pixels in every four along the sides
    for x in [17, 18, 21, 22, 25, 26] {
        assert_eq!(at(&game, x, 10), aqua());
    }
    for x in [13, 14, 17, 18, 21, 22] {
        assert_eq!(at(&game, x, 25), aqua());
    }
    for y in [17, 18, 21, 22] {
        assert_eq!(at(&game, 10, y), aqua());
    }
    for y in [13, 14, 17, 18] {
        assert_eq!(at(&game, 29, y), aqua());
    }
    assert_eq!(at(&game, 12, 10), red());
    let marked = painted(game.pixels(), aqua()).len();
    game.reselect(None);
    let framed = new_game(W, H);
    assert_eq!(marked - painted(game.pixels(), aqua()).len(), 9 + 12 + 8);
    assert_eq!(painted(game.pixels(), aqua()), painted(framed.pixels(), aqua()));
}

#[test]
fn a_hidden_cursor_leaves_no_mark() {
    let mut game = new_game(W, H);
    game.set_selection(30, 30);
    game.toggle_cursor();
    assert!(game.is_cursor_hidden());
    for i in 0..(W * H) as usize {
        assert_eq!(game.pixels()[i], black());
    }
    game.move_cursor(5, 5, true);
    game.set_selection(3, 3);
    game.set_cell(1, 1, CellState::Alive);
    for i in 0..(W * H) as usize {
        assert_eq!(game.pixels()[i], cell_color(game.cells()[i]));
    }
    game.toggle_cursor();
    assert_eq!(at(&game, 7, 5), red());
    assert_eq!(at(&game, 7, 7), aqua());
}

#[test]
fn the_frame_is_handed_out_as_three_bytes_to_a_pixel() {
    let mut game = new_game(4, 3);
    game.toggle_cursor();
    game.set_cell(1, 0, CellState::Alive);
    game.set_cell(2, 0, CellState::Block);
    let bytes = game.frame_bytes();
    assert_eq!(bytes.len(), 3 * 4 * 25);
    assert_eq!(bytes[0..12], [0, 0, 0, 255, 255, 255, 128, 128, 128, 0, 0, 0]);
    // the first line of the strip is aqua
    assert_eq!(bytes[3 * 12..3 * 12 + 6], [0, 255, 255, 0, 255, 255]);
    for (i, pixel) in game.pixels().iter().enumerate() {
        assert_eq!(bytes[3 * i..3 * i + 3], [pixel.r, pixel.g, pixel.b]);
    }
}

#[test]
fn the_smallest_grids_can_be_drawn() {
    for (width, height) in [(1, 1), (1, 5), (5, 1), (2, 2), (3, 3), (7, 2), (96, 1)] {
        let mut game = new_game(width, height);
        assert_eq!(game.pixels().len(), (width * (height + 22)) as usize);
        game.set_selection(1, 1);
        game.move_cursor(3, 3, true);
        game.fill_selection(CellState::Alive);
        game.place(game_of_life::patterns::MacroKind::GliderGun);
        game.toggle_pause();
        game.advance(1_000_000_000);
        game.report_speed(16, 1_000_000_000);
        game.toggle_transform(true, true, true);
        game.set_speed(1234);
        game.reselect(None);
        assert_eq!(game.paste(b"=3x3=R4"), Ok(()));
        game.toggle_cursor();
        game.toggle_cursor();
        game.reset();
        assert_eq!(game.population(), 0);
    }
}
