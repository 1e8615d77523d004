use grid_games::board::get_adjacent_indexes;

#[test]
fn corner_cells_have_three_neighbors() {
    assert_eq!(get_adjacent_indexes(0), vec![1, 5, 6]);
    assert_eq!(get_adjacent_indexes(4), vec![3, 8, 9]);
    assert_eq!(get_adjacent_indexes(20), vec![15, 16, 21]);
    assert_eq!(get_adjacent_indexes(24), vec![18, 19, 23]);
}

#[test]
fn edge_cells_have_five_neighbors() {
    assert_eq!(get_adjacent_indexes(2), vec![1, 3, 6, 7, 8]);
    assert_eq!(get_adjacent_indexes(10), vec![5, 6, 11, 15, 16]);
    assert_eq!(get_adjacent_indexes(14), vec![8, 9, 13, 18, 19]);
    assert_eq!(get_adjacent_indexes(22), vec![16, 17, 18, 21, 23]);
}

#[test]
fn interior_cells_have_eight_neighbors() {
    assert_eq!(get_adjacent_indexes(12), vec![6, 7, 8, 11, 13, 16, 17, 18]);
    for index in [6, 7, 8, 11, 13, 16, 17, 18] {
        assert_eq!(get_adjacent_indexes(index).len(), 8);
    }
}

#[test]
fn neighbor_counts_never_exceed_eight() {
    for index in 0..25 {
        let n = get_adjacent_indexes(index).len();
        assert!(n == 3 || n == 5 || n == 8);
    }
}

#[test]
fn neighborhood_is_symmetric() {
    for a in 0..25 {
        for b in get_adjacent_indexes(a) {
            assert!(get_adjacent_indexes(b).contains(&a));
        }
    }
}
