use kl_lords::terrain::regular_grid::{cell_in_grid, grid_edges, point_index, PlacedCells};

#[test]
fn point_indices_go_row_by_row() {
    assert_eq!(point_index(2, 3, 5), 17);
    assert_eq!(point_index(0, 0, 11), 0);
}

#[test]
fn edges_of_small_grids() {
    assert_eq!(grid_edges(1, 1), vec![(0, 1), (0, 2), (1, 3), (2, 3)]);
    assert_eq!(grid_edges(2, 1), vec![(0, 1), (0, 3), (1, 2), (1, 4), (2, 5), (3, 4), (4, 5)]);
    assert_eq!(grid_edges(0, 0), vec![]);
    assert_eq!(grid_edges(10, 10).len(), 2 * 10 * 11);
}

#[test]
fn cells_outside_the_grid() {
    assert_eq!(cell_in_grid(3, 4, 10, 10), Some((3, 4)));
    assert_eq!(cell_in_grid(-1, 4, 10, 10), None);
    assert_eq!(cell_in_grid(10, 4, 10, 10), None);
    assert_eq!(cell_in_grid(9, 9, 10, 10), Some((9, 9)));
}

#[test]
fn a_cell_takes_one_cube() {
    let mut placed = PlacedCells::new();
    assert!(!placed.contains(2, 3));
    assert!(placed.place(2, 3));
    assert!(placed.contains(2, 3));
    assert!(!placed.place(2, 3));
    assert!(placed.place(-2, 3));
}
