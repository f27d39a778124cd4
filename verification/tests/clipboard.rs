use game_of_life::cell::CellState;
use game_of_life::codec::{
    encode_bits, parse_header, push_decimal, symbol_for, symbol_value, write_header, PasteError,
};
use game_of_life::game::Game;
use game_of_life::glyphs::DigitStyle;
use game_of_life::patterns::MacroKind;

const ALPHABET: &str = "ABCDEFGHIJKLMNOPQRSTUVWXYZabcdefghijklmnopqrstuvwxyz0123456789+/";

fn new_game(width: i32, height: i32) -> Game {
    Game::init(width, height + 22, 0, DigitStyle::Normal)
}

fn alive(game: &Game) -> Vec<usize> {
    let mut out = Vec::new();
    for (i, cell) in game.cells().iter().enumerate() {
        if *cell == CellState::Alive {
            out.push(i);
        }
    }
    out
}

fn glider_at_3_3() -> Game {
    let mut game = new_game(8, 8);
    game.move_cursor(3, 3, false);
    game.place(MacroKind::Glider);
    game
}

fn bits(text: &str) -> Vec<bool> {
    text.bytes().map(|b| b == b'1').collect()
}

#[test]
fn the_alphabet_has_64_symbols_in_order() {
    for (v, symbol) in ALPHABET.bytes().enumerate() {
        assert_eq!(symbol_for(v as u8), symbol);
        assert_eq!(symbol_value(symbol), Some(v as u8));
    }
}

#[test]
fn what_is_not_of_the_alphabet_has_no_value() {
    for b in 0..=255u8 {
        if !ALPHABET.as_bytes().contains(&b) {
            assert_eq!(symbol_value(b), None);
        }
    }
    assert_eq!(symbol_value(b'='), None);
    assert_eq!(symbol_value(b' '), None);
    assert_eq!(symbol_value(b'-'), None);
}

#[test]
fn six_bits_make_a_symbol_most_significant_bit_first() {
    assert_eq!(encode_bits(&bits("100000")), b"g".to_vec());
    assert_eq!(encode_bits(&bits("000001")), b"B".to_vec());
    assert_eq!(encode_bits(&bits("010001")), b"R".to_vec());
    assert_eq!(encode_bits(&bits("111111")), b"/".to_vec());
    assert_eq!(encode_bits(&bits("111110")), b"+".to_vec());
    assert_eq!(encode_bits(&bits("000000")), b"A".to_vec());
    assert_eq!(encode_bits(&bits("111111111111")), b"//".to_vec());
    assert_eq!(encode_bits(&bits("000000000000")), b"AA".to_vec());
}

#[test]
fn a_short_last_group_is_written_if_a_bit_of_it_is_set() {
    assert_eq!(encode_bits(&bits("0000001")), b"Ag".to_vec());
    assert_eq!(encode_bits(&bits("010001111")), b"R4".to_vec());
    assert_eq!(encode_bits(&bits("1")), b"g".to_vec());
    assert_eq!(encode_bits(&bits("00001")), b"C".to_vec());
}

#[test]
fn a_short_last_group_of_zeros_is_dropped() {
    assert_eq!(encode_bits(&bits("1000000")), b"g".to_vec());
    assert_eq!(encode_bits(&bits("0000000")), b"A".to_vec());
    assert_eq!(encode_bits(&bits("0")), Vec::<u8>::new());
    assert_eq!(encode_bits(&bits("00000")), Vec::<u8>::new());
    assert_eq!(encode_bits(&bits("")), Vec::<u8>::new());
}

#[test]
fn numbers_are_written_in_decimal() {
    let mut out = b"n".to_vec();
    push_decimal(&mut out, 0);
    out.push(b' ');
    push_decimal(&mut out, 7);
    out.push(b' ');
    push_decimal(&mut out, 10);
    out.push(b' ');
    push_decimal(&mut out, 4_294_967_295);
    assert_eq!(out, b"n0 7 10 4294967295".to_vec());
    assert_eq!(write_header(12, 345), b"=12x345=".to_vec());
    assert_eq!(write_header(0, 1), b"=0x1=".to_vec());
}

#[test]
fn a_header_gives_the_size_and_the_start_of_the_symbols() {
    let header = parse_header(b"=3x3=R4").unwrap();
    assert_eq!(header.size, Some((3, 3)));
    assert_eq!(header.start, 5);
    let header = parse_header(b"=12x0345=A").unwrap();
    assert_eq!(header.size, Some((12, 345)));
    assert_eq!(header.start, 9);
    let header = parse_header(b"=2147483647x1=A").unwrap();
    assert_eq!(header.size, Some((2147483647, 1)));
}

#[test]
fn a_text_without_a_header_is_all_symbols() {
    let header = parse_header(b"R4").unwrap();
    assert_eq!(header.size, None);
    assert_eq!(header.start, 0);
    let header = parse_header(b"3x3=R4").unwrap();
    assert_eq!(header.size, None);
    assert_eq!(header.start, 0);
}

#[test]
fn the_header_may_part_its_numbers_by_any_byte_and_leave_its_end_open() {
    let header = parse_header(b"=3y4R4").unwrap();
    assert_eq!(header.size, Some((3, 4)));
    assert_eq!(header.start, 4);
    let header = parse_header(b"=3=4=R4").unwrap();
    assert_eq!(header.size, Some((3, 4)));
    assert_eq!(header.start, 5);
}

#[test]
fn a_broken_header_is_refused() {
    for text in [
        &b"="[..],
        b"=3",
        b"=3x",
        b"=3x3",
        b"=x3=AA",
        b"=3x=AA",
        b"==",
        b"=-3x3=AA",
        b"=2147483648x1=A",
        b"=1x99999999999999999999999999=A",
    ] {
        assert_eq!(parse_header(text).err(), Some(PasteError::BadHeader));
    }
}

#[test]
fn a_size_of_zero_is_refused() {
    assert_eq!(parse_header(b"=0x3=AA").err(), Some(PasteError::EmptySize));
    assert_eq!(parse_header(b"=3x0=AA").err(), Some(PasteError::EmptySize));
    assert_eq!(parse_header(b"=000x000=AA").err(), Some(PasteError::EmptySize));
}

#[test]
fn a_text_without_symbols_is_refused() {
    assert_eq!(parse_header(b"").err(), Some(PasteError::NoSymbols));
    assert_eq!(parse_header(b"=3x3=").err(), Some(PasteError::NoSymbols));
}

#[test]
fn copying_a_selection_gives_its_size_and_its_cells() {
    let mut game = glider_at_3_3();
    game.move_cursor(2, 2, false);
    game.set_selection(3, 3);
    assert_eq!(game.copy(), b"=3x3=R4".to_vec());
}

#[test]
fn copying_without_a_selection_gives_the_whole_grid() {
    let mut game = glider_at_3_3();
    game.move_cursor(0, 0, false);
    assert_eq!(game.copy(), b"=8x8=AAAQCDgAAA".to_vec());
    let empty = new_game(2, 2);
    assert_eq!(empty.copy(), b"=2x2=".to_vec());
}

#[test]
fn copying_a_selection_over_the_edge_reads_round_the_torus() {
    let mut game = new_game(8, 8);
    game.move_cursor(7, 0, false);
    game.place(MacroKind::Glider);
    game.move_cursor(6, 7, false);
    game.set_selection(3, 3);
    assert_eq!(game.copy(), b"=3x3=R4".to_vec());
}

#[test]
fn a_copy_pasted_into_an_empty_selection_of_its_size_is_the_pattern() {
    let mut source = glider_at_3_3();
    source.move_cursor(2, 2, false);
    source.set_selection(3, 3);
    let text = source.copy();
    let mut target = new_game(8, 8);
    target.move_cursor(2, 2, false);
    target.set_selection(3, 3);
    assert_eq!(target.paste(&text), Ok(()));
    assert_eq!(target.cells(), source.cells());
    assert_eq!(target.selection(), Some((3, 3)));
}

#[test]
fn a_copy_of_the_whole_grid_pasted_into_an_empty_grid_is_the_grid() {
    let mut source = new_game(9, 8);
    source.random(11);
    let text = source.copy();
    assert_eq!(text.len(), 5 + 12);
    let mut target = new_game(9, 8);
    assert_eq!(target.paste(&text), Ok(()));
    assert_eq!(target.cells(), source.cells());
    assert_eq!(target.selection(), None);
    assert_eq!(target.population(), source.population());
}

#[test]
fn a_paste_without_a_selection_selects_what_it_pasted() {
    let mut game = new_game(8, 8);
    game.move_cursor(2, 2, false);
    assert_eq!(game.paste(b"=3x3=R4"), Ok(()));
    assert_eq!(alive(&game), vec![19, 28, 34, 35, 36]);
    assert_eq!(game.selection(), Some((3, 3)));
    assert_eq!(game.cursor(), (2, 2));
}

#[test]
fn a_paste_clears_what_was_in_its_rectangle() {
    let mut game = new_game(8, 8);
    game.move_cursor(2, 2, false);
    game.set_selection(3, 3);
    game.fill_selection(CellState::Alive);
    game.set_cell(0, 0, CellState::Alive);
    game.set_cell(3, 3, CellState::Block);
    game.reselect(None);
    assert_eq!(game.paste(b"=3x3=R4"), Ok(()));
    assert_eq!(alive(&game), vec![0, 19, 28, 34, 35, 36]);
    assert_eq!(game.get_cell(3, 3), CellState::Dead);
}

#[test]
fn a_block_is_copied_as_a_dead_cell() {
    let mut source = glider_at_3_3();
    source.set_cell(2, 2, CellState::Block);
    source.set_cell(3, 3, CellState::Block);
    source.move_cursor(2, 2, false);
    source.set_selection(3, 3);
    let text = source.copy();
    assert_eq!(text, b"=3x3=R4".to_vec());
    let mut target = new_game(8, 8);
    target.move_cursor(2, 2, false);
    target.set_selection(3, 3);
    assert_eq!(target.paste(&text), Ok(()));
    assert_eq!(target.get_cell(2, 2), CellState::Dead);
    assert_eq!(target.get_cell(3, 3), CellState::Dead);
    assert_eq!(alive(&target), vec![19, 28, 34, 35, 36]);
}

#[test]
fn a_paste_over_the_edge_wraps() {
    let mut game = new_game(8, 8);
    game.move_cursor(6, 7, false);
    assert_eq!(game.paste(b"=3x3=R4"), Ok(()));
    assert_eq!(alive(&game), vec![0, 8, 14, 15, 63]);
}

#[test]
fn a_pattern_is_tiled_over_a_larger_selection() {
    let mut game = new_game(8, 8);
    game.move_cursor(1, 1, false);
    game.set_selection(6, 3);
    assert_eq!(game.paste(b"=3x3=R4"), Ok(()));
    assert_eq!(alive(&game), vec![10, 13, 19, 22, 25, 26, 27, 28, 29, 30]);
    assert_eq!(game.selection(), Some((6, 3)));
}

#[test]
fn only_whole_tiles_are_pasted() {
    let mut game = new_game(8, 8);
    game.move_cursor(1, 1, false);
    game.set_selection(7, 5);
    game.fill_selection(CellState::Alive);
    assert_eq!(game.paste(b"=3x3=R4"), Ok(()));
    assert_eq!(alive(&game), vec![10, 13, 19, 22, 25, 26, 27, 28, 29, 30]);
}

#[test]
fn a_selection_smaller_than_the_pattern_is_cleared_and_takes_nothing() {
    let mut game = new_game(8, 8);
    game.set_selection(2, 2);
    game.fill_selection(CellState::Alive);
    game.set_cell(5, 5, CellState::Alive);
    assert_eq!(game.paste(b"=3x3=R4"), Ok(()));
    assert_eq!(alive(&game), vec![45]);
    // not even a symbol is read
    assert_eq!(game.paste(b"=3x3=??"), Ok(()));
}

#[test]
fn a_text_shorter_than_its_rectangle_is_read_round_and_round() {
    let mut game = new_game(8, 8);
    game.set_selection(3, 3);
    assert_eq!(game.paste(b"=3x3=R"), Ok(()));
    assert_eq!(alive(&game), vec![1, 10, 17]);
}

#[test]
fn a_text_without_a_header_takes_the_size_of_the_selection() {
    let mut game = new_game(8, 8);
    game.move_cursor(2, 2, false);
    game.set_selection(3, 3);
    assert_eq!(game.paste(b"R4"), Ok(()));
    assert_eq!(alive(&game), vec![19, 28, 34, 35, 36]);
}

#[test]
fn a_text_without_a_header_and_without_a_selection_fills_the_grid() {
    let mut game = new_game(8, 8);
    assert_eq!(game.paste(b"R4"), Ok(()));
    assert_eq!(
        alive(&game),
        vec![
            1, 5, 6, 7, 8, 13, 17, 18, 19, 20, 25, 29, 30, 31, 32, 37, 41, 42, 43, 44, 49, 53, 54,
            55, 56, 61
        ]
    );
    assert_eq!(game.selection(), None);
}

#[test]
fn a_pattern_larger_than_the_grid_wraps_onto_itself() {
    let mut game = new_game(8, 8);
    game.move_cursor(3, 4, false);
    assert_eq!(game.paste(b"=10x1=//"), Ok(()));
    assert_eq!(alive(&game), vec![32, 33, 34, 35, 36, 37, 38, 39]);
    assert_eq!(game.selection(), Some((8, 1)));
}

#[test]
fn a_dropped_last_group_reads_an_echo_of_the_first_symbol() {
    let mut source = new_game(8, 8);
    source.set_cell(0, 0, CellState::Alive);
    source.set_selection(7, 1);
    let text = source.copy();
    assert_eq!(text, b"=7x1=g".to_vec());
    let mut target = new_game(8, 8);
    target.set_selection(7, 1);
    assert_eq!(target.paste(&text), Ok(()));
    assert_eq!(alive(&target), vec![0, 6]);
}

#[test]
fn a_refused_text_changes_nothing() {
    let mut game = glider_at_3_3();
    let cells = game.cells().clone();
    let pixels = game.pixels().clone();
    assert_eq!(game.paste(b""), Err(PasteError::NoSymbols));
    assert_eq!(game.paste(b"=3x3="), Err(PasteError::NoSymbols));
    assert_eq!(game.paste(b"=3x3"), Err(PasteError::BadHeader));
    assert_eq!(game.paste(b"=0x3=R4"), Err(PasteError::EmptySize));
    assert_eq!(game.cells(), &cells);
    assert_eq!(game.pixels(), &pixels);
    assert_eq!(game.selection(), None);
    game.set_selection(0, 3);
    let pixels = game.pixels().clone();
    assert_eq!(game.paste(b"R4"), Err(PasteError::EmptySize));
    assert_eq!(game.cells(), &cells);
    assert_eq!(game.pixels(), &pixels);
}

#[test]
fn a_symbol_that_is_not_of_the_alphabet_stops_the_paste() {
    let mut game = new_game(8, 8);
    game.set_selection(4, 3);
    game.fill_selection(CellState::Alive);
    assert_eq!(game.paste(b"=4x3=g!"), Err(PasteError::InvalidSymbol));
    // the rectangle was cleared, and the six cells of the first symbol pasted
    assert_eq!(alive(&game), vec![0]);
    let mut game = new_game(8, 8);
    game.fill_selection(CellState::Alive);
    assert_eq!(game.paste(b"=2x2=*"), Err(PasteError::InvalidSymbol));
    assert_eq!(game.population(), 60);
    assert_eq!(game.selection(), Some((2, 2)));
}

#[test]
fn a_symbol_that_no_cell_reads_does_no_harm() {
    let mut game = new_game(8, 8);
    assert_eq!(game.paste(b"=3x2=g!"), Ok(()));
    assert_eq!(alive(&game), vec![0]);
}

#[test]
fn of_several_tiles_only_the_first_is_begun_when_a_symbol_stops_the_paste() {
    let mut game = new_game(8, 8);
    game.reselect(Some((8, 3)));
    assert_eq!(game.paste(b"=4x3=g!"), Err(PasteError::InvalidSymbol));
    assert_eq!(alive(&game), vec![0]);
    let mut game = new_game(8, 8);
    game.reselect(Some((8, 3)));
    assert_eq!(game.paste(b"=4x3=gA"), Ok(()));
    assert_eq!(alive(&game), vec![0, 4]);
}
