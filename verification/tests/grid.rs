use insta_mosaic::size::{ConfigError, Grid, ImageSize, Position};

fn size_of(width: u32, height: u32) -> ImageSize {
    ImageSize { width, height }
}

#[test]
fn reference_3000_with_piece_30_gives_100_by_100_cells() {
    let grid = Grid::new(size_of(3000, 3000), size_of(30, 30)).unwrap();
    assert_eq!(grid.col_count(), 100);
    assert_eq!(grid.row_count(), 100);
    assert_eq!(grid.cells(), 10_000);
    assert_eq!(grid.reference_size(), size_of(3000, 3000));
    assert_eq!(grid.piece_size(), size_of(30, 30));
}

#[test]
fn piece_70_does_not_tile_reference_3000() {
    assert_eq!(
        Grid::new(size_of(3000, 3000), size_of(70, 70)).unwrap_err(),
        ConfigError::SizeMismatch
    );
}

#[test]
fn piece_40_tiles_reference_3000_in_75_cells_a_side() {
    let grid = Grid::new(size_of(3000, 3000), size_of(40, 40)).unwrap();
    assert_eq!(grid.col_count(), 75);
    assert_eq!(grid.row_count(), 75);
}

#[test]
fn mismatch_in_one_axis_only_is_refused() {
    assert_eq!(
        Grid::new(size_of(3000, 3000), size_of(30, 70)).unwrap_err(),
        ConfigError::SizeMismatch
    );
    assert_eq!(
        Grid::new(size_of(3000, 3000), size_of(70, 30)).unwrap_err(),
        ConfigError::SizeMismatch
    );
}

#[test]
fn zero_sides_are_refused_as_mismatch() {
    assert_eq!(Grid::new(size_of(3000, 3000), size_of(0, 30)).unwrap_err(), ConfigError::SizeMismatch);
    assert_eq!(Grid::new(size_of(3000, 3000), size_of(30, 0)).unwrap_err(), ConfigError::SizeMismatch);
    assert_eq!(Grid::new(size_of(0, 3000), size_of(30, 30)).unwrap_err(), ConfigError::SizeMismatch);
    assert_eq!(Grid::new(size_of(3000, 0), size_of(30, 30)).unwrap_err(), ConfigError::SizeMismatch);
}

#[test]
fn piece_equal_to_reference_gives_one_cell() {
    let grid = Grid::new(size_of(30, 30), size_of(30, 30)).unwrap();
    assert_eq!(grid.cells(), 1);
    assert_eq!(grid.position_at(0), Some(Position { row: 0, col: 0 }));
    assert_eq!(grid.position_at(1), None);
}

#[test]
fn piece_larger_than_reference_is_refused() {
    assert_eq!(
        Grid::new(size_of(30, 30), size_of(60, 60)).unwrap_err(),
        ConfigError::SizeMismatch
    );
}

#[test]
fn reference_with_too_many_pixels_is_refused_as_too_large() {
    let huge = size_of(u32::MAX, u32::MAX);
    assert_eq!(Grid::new(huge, size_of(1, 1)).unwrap_err(), ConfigError::TooLarge);
    assert_eq!(Grid::new(huge, size_of(2, 2)).unwrap_err(), ConfigError::SizeMismatch);
}

#[test]
fn cells_are_counted_row_by_row() {
    let grid = Grid::new(size_of(90, 60), size_of(30, 30)).unwrap();
    assert_eq!(grid.col_count(), 3);
    assert_eq!(grid.row_count(), 2);
    let expected = [(0, 0), (0, 1), (0, 2), (1, 0), (1, 1), (1, 2)];
    for (index, (row, col)) in expected.iter().enumerate() {
        let pos = Position { row: *row, col: *col };
        assert_eq!(grid.position_at(index), Some(pos));
        assert_eq!(grid.index_at(pos), Some(index));
    }
    assert_eq!(grid.position_at(6), None);
    assert_eq!(grid.index_at(Position { row: 2, col: 0 }), None);
    assert_eq!(grid.index_at(Position { row: 0, col: 3 }), None);
}

#[test]
fn cell_corner_is_column_times_width_and_row_times_height() {
    let grid = Grid::new(size_of(90, 80), size_of(30, 20)).unwrap();
    assert_eq!(grid.cell_corner(Position { row: 0, col: 0 }), (0, 0));
    assert_eq!(grid.cell_corner(Position { row: 3, col: 2 }), (60, 60));
    assert_eq!(grid.cell_corner(Position { row: 1, col: 1 }), (30, 20));
}

#[test]
fn index_and_position_are_inverse_over_the_whole_grid() {
    let grid = Grid::new(size_of(3000, 3000), size_of(30, 30)).unwrap();
    for index in 0..grid.cells() {
        let pos = grid.position_at(index).unwrap();
        assert_eq!(grid.index_at(pos), Some(index));
        assert_eq!(pos.row as usize, index / 100);
        assert_eq!(pos.col as usize, index % 100);
    }
}
