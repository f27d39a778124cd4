use game_of_life::neighbors::generate_neighbors;

fn moore(width: i32, height: i32, i: usize) -> Vec<usize> {
    let x = (i as i32) % width;
    let y = (i as i32) / width;
    let mut out = Vec::new();
    for dy in -1..2 {
        for dx in -1..2 {
            if dx == 0 && dy == 0 {
                continue;
            }
            let nx = (x + dx + width) % width;
            let ny = (y + dy + height) % height;
            out.push((ny * width + nx) as usize);
        }
    }
    out
}

#[test]
fn every_cell_of_a_4x4_grid_has_its_eight_moore_neighbors() {
    let table = generate_neighbors(4, 4);
    assert_eq!(table.len(), 16);
    for i in 0..16 {
        let entry = table[i];
        assert_eq!(entry.to_vec(), moore(4, 4, i));
        for a in 0..8 {
            assert_ne!(entry[a], i);
            assert!(entry[a] < 16);
            for b in 0..8 {
                if a != b {
                    assert_ne!(entry[a], entry[b]);
                }
            }
        }
    }
}

#[test]
fn corner_cells_reach_over_the_edges() {
    let table = generate_neighbors(4, 4);
    assert_eq!(table[0], [15, 12, 13, 3, 1, 7, 4, 5]);
    assert_eq!(table[5], [0, 1, 2, 4, 6, 8, 9, 10]);
    assert_eq!(table[15], [10, 11, 8, 14, 12, 2, 3, 0]);
}

#[test]
fn the_neighbor_relation_is_symmetric() {
    let table = generate_neighbors(5, 3);
    for i in 0..15 {
        for k in 0..8 {
            assert_eq!(table[table[i][k]][7 - k], i);
        }
    }
}

#[test]
fn a_grid_of_one_cell_is_its_own_neighbor() {
    let table = generate_neighbors(1, 1);
    assert_eq!(table, vec![[0usize; 8]]);
}

#[test]
fn a_narrow_grid_names_a_cell_in_more_than_one_slot() {
    let table = generate_neighbors(2, 3);
    assert_eq!(table.len(), 6);
    for i in 0..6 {
        assert_eq!(table[i].to_vec(), moore(2, 3, i));
    }
    assert_eq!(table[0], [5, 4, 5, 1, 1, 3, 2, 3]);
}
