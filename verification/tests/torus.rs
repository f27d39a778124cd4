use game_of_life::torus::{coord_index, wrap_coord};

#[test]
fn wrap_keeps_cells_of_the_grid() {
    assert_eq!(wrap_coord(0, 5), 0);
    assert_eq!(wrap_coord(4, 5), 4);
}

#[test]
fn wrap_folds_negative_coordinates() {
    assert_eq!(wrap_coord(-1, 5), 4);
    assert_eq!(wrap_coord(-5, 5), 0);
    assert_eq!(wrap_coord(-6, 5), 4);
    assert_eq!(wrap_coord(-1_000_003, 10), 7);
}

#[test]
fn index_is_row_major() {
    assert_eq!(coord_index(4, 3, 0, 0), 0);
    assert_eq!(coord_index(4, 3, 3, 0), 3);
    assert_eq!(coord_index(4, 3, 0, 1), 4);
    assert_eq!(coord_index(4, 3, 3, 2), 11);
}

#[test]
fn index_wraps_by_whole_widths_and_heights() {
    for k in -3..4 {
        for y in -4..8 {
            for x in -5..9 {
                let i = coord_index(4, 3, x, y);
                assert_eq!(coord_index(4, 3, x + k * 4, y), i);
                assert_eq!(coord_index(4, 3, x, y + k * 3), i);
            }
        }
    }
}
