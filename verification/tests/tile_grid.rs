use truchet::tile::Tile;
use truchet::tile::TileError;
use truchet::tile_grid::TileGrid;

fn generated(rows: usize, cols: usize) -> TileGrid {
    let mut grid = TileGrid::new(rows, cols);
    grid.randomize_mut();
    grid
}

fn cells(grid: &TileGrid) -> Vec<Vec<Tile>> {
    let (rows, cols) = grid.dimensions();
    let mut all = Vec::new();
    for i in 0..rows {
        let mut row = Vec::new();
        for j in 0..cols {
            row.push(*grid.get_tile(i, j));
        }
        all.push(row);
    }
    all
}

fn assert_edges_match(grid: &TileGrid) {
    let (rows, cols) = grid.dimensions();
    for i in 0..rows {
        for j in 0..cols {
            if j + 1 < cols {
                assert_eq!(grid.get_tile(i, j).right, grid.get_tile(i, j + 1).left);
            }
            if i + 1 < rows {
                assert_eq!(grid.get_tile(i, j).bottom, grid.get_tile(i + 1, j).top);
            }
        }
    }
}

#[test]
fn a_new_grid_has_its_dimensions_and_no_cells() {
    let grid = TileGrid::new(3, 4);
    assert_eq!(grid.dimensions(), (3, 4));
    assert_eq!(grid.is_populated(), false);
}

#[test]
fn a_grid_without_rows_or_columns_is_populated_from_the_start() {
    assert_eq!(TileGrid::new(0, 0).is_populated(), true);
    assert_eq!(TileGrid::new(0, 5).is_populated(), true);
    assert_eq!(TileGrid::new(5, 0).is_populated(), true);
    assert_eq!(TileGrid::new(usize::MAX, usize::MAX).is_populated(), false);
}

#[test]
fn randomize_populates_the_grid() {
    let mut grid = TileGrid::new(4, 7);
    grid.randomize();
    assert_eq!(grid.is_populated(), true);
    assert_eq!(grid.dimensions(), (4, 7));
    assert_eq!(cells(&grid).len(), 4);
}

#[test]
fn randomize_hands_back_the_populated_grid() {
    let mut grid = TileGrid::new(2, 2);
    let view = grid.randomize();
    assert_eq!(view.is_populated(), true);
    let seen = cells(view);
    assert_eq!(seen, cells(&grid));
}

#[test]
fn randomize_mut_can_be_chained() {
    let mut grid = TileGrid::new(3, 3);
    grid.randomize_mut().randomize_mut();
    assert_eq!(grid.is_populated(), true);
    assert_eq!(grid.dimensions(), (3, 3));
    assert_edges_match(&grid);
}

#[test]
fn randomize_on_an_empty_shape_leaves_no_cells() {
    let mut grid = TileGrid::new(0, 3);
    grid.randomize_mut();
    assert_eq!(grid.is_populated(), true);
    assert_eq!(grid.to_string(), "");
}

#[test]
fn a_row_of_two_agrees_on_the_edge_between() {
    for _ in 0..100 {
        let grid = generated(1, 2);
        assert_eq!(grid.get_tile(0, 0).right, grid.get_tile(0, 1).left);
    }
}

#[test]
fn a_column_of_two_agrees_on_the_edge_between() {
    for _ in 0..100 {
        let grid = generated(2, 1);
        assert_eq!(grid.get_tile(0, 0).bottom, grid.get_tile(1, 0).top);
    }
}

#[test]
fn generated_grids_agree_on_every_shared_edge() {
    for (rows, cols) in [(1, 1), (1, 5), (5, 1), (2, 2), (3, 4), (7, 6), (10, 10)] {
        for _ in 0..20 {
            assert_edges_match(&generated(rows, cols));
        }
    }
}

#[test]
fn generated_grids_differ() {
    let first = cells(&generated(8, 8));
    let mut differs = false;
    for _ in 0..20 {
        if cells(&generated(8, 8)) != first {
            differs = true;
        }
    }
    assert!(differs);
}

#[test]
fn gen_tile_fits_the_cells_above_and_to_the_left() {
    let grid = generated(3, 3);
    for _ in 0..50 {
        let tile = grid.gen_tile(1, 1);
        assert_eq!(tile.top, grid.get_tile(0, 1).bottom);
        assert_eq!(tile.left, grid.get_tile(1, 0).right);
        let tile = grid.gen_tile(0, 2);
        assert_eq!(tile.left, grid.get_tile(0, 1).right);
        let tile = grid.gen_tile(2, 0);
        assert_eq!(tile.top, grid.get_tile(1, 0).bottom);
    }
}

#[test]
fn gen_tile_needs_no_cells_for_the_first_place() {
    let grid = TileGrid::new(2, 2);
    let mut seen = Vec::new();
    for _ in 0..400 {
        let tile = grid.gen_tile(0, 0);
        if !seen.contains(&tile) {
            seen.push(tile);
        }
    }
    assert_eq!(seen.len(), 16);
}

#[test]
fn reflect_v_doubles_the_columns() {
    let grid = generated(3, 4);
    let doubled = grid.reflect_v();
    assert_eq!(doubled.dimensions(), (3, 8));
    assert_eq!(doubled.is_populated(), true);
}

#[test]
fn reflect_h_doubles_the_rows() {
    let grid = generated(3, 4);
    let doubled = grid.reflect_h();
    assert_eq!(doubled.dimensions(), (6, 4));
    assert_eq!(doubled.is_populated(), true);
}

#[test]
fn reflect_v_copies_each_row_and_appends_its_mirror_image() {
    let grid = generated(3, 4);
    let doubled = grid.reflect_v();
    for i in 0..3 {
        for j in 0..4 {
            assert_eq!(doubled.get_tile(i, j), grid.get_tile(i, j));
            assert_eq!(*doubled.get_tile(i, 4 + j), grid.get_tile(i, 3 - j).reflect_v());
        }
    }
}

#[test]
fn reflect_h_copies_the_rows_and_appends_their_mirror_image() {
    let grid = generated(3, 4);
    let doubled = grid.reflect_h();
    for i in 0..3 {
        for j in 0..4 {
            assert_eq!(doubled.get_tile(i, j), grid.get_tile(i, j));
            assert_eq!(*doubled.get_tile(3 + i, j), grid.get_tile(2 - i, j).reflect_h());
        }
    }
}

#[test]
fn reflect_v_of_a_single_tile() {
    let grid = generated(1, 1);
    let tile = *grid.get_tile(0, 0);
    let doubled = grid.reflect_v();
    assert_eq!(doubled.dimensions(), (1, 2));
    assert_eq!(*doubled.get_tile(0, 0), tile);
    assert_eq!(*doubled.get_tile(0, 1), Tile::new(tile.top, tile.right, tile.bottom, tile.left));
}

#[test]
fn reflect_h_of_a_single_tile() {
    let grid = generated(1, 1);
    let tile = *grid.get_tile(0, 0);
    let doubled = grid.reflect_h();
    assert_eq!(doubled.dimensions(), (2, 1));
    assert_eq!(*doubled.get_tile(0, 0), tile);
    assert_eq!(*doubled.get_tile(1, 0), Tile::new(tile.bottom, tile.left, tile.top, tile.right));
}

#[test]
fn the_right_half_mirrors_the_left_half() {
    let doubled = generated(4, 3).reflect_v();
    for i in 0..4 {
        for k in 0..3 {
            assert_eq!(*doubled.get_tile(i, 3 + k), doubled.get_tile(i, 2 - k).reflect_v());
        }
    }
}

#[test]
fn the_lower_half_mirrors_the_upper_half() {
    let doubled = generated(4, 3).reflect_h();
    for k in 0..4 {
        for j in 0..3 {
            assert_eq!(*doubled.get_tile(4 + k, j), doubled.get_tile(3 - k, j).reflect_h());
        }
    }
}

#[test]
fn reflection_leaves_its_source_alone() {
    let grid = generated(3, 3);
    let before = cells(&grid);
    let _ = grid.reflect_v();
    let _ = grid.reflect_h();
    assert_eq!(cells(&grid), before);
    assert_eq!(grid.dimensions(), (3, 3));
}

#[test]
fn reflection_keeps_neighbours_in_agreement() {
    for _ in 0..20 {
        let grid = generated(3, 5);
        assert_edges_match(&grid.reflect_v());
        assert_edges_match(&grid.reflect_h());
    }
}

#[test]
fn reflecting_an_empty_shape_gives_an_empty_shape() {
    let grid = generated(0, 3);
    let doubled = grid.reflect_v();
    assert_eq!(doubled.dimensions(), (0, 6));
    assert_eq!(doubled.is_populated(), true);
    let doubled = grid.reflect_h();
    assert_eq!(doubled.dimensions(), (0, 3));
    assert_eq!(doubled.is_populated(), true);
}

#[test]
fn five_by_five_doubled_both_ways_is_symmetric_about_its_centre() {
    let mut grid = TileGrid::new(5, 5);
    grid.randomize();
    let grid = grid.reflect_v().reflect_h();
    assert_eq!(grid.dimensions(), (10, 10));
    assert_edges_match(&grid);
    for i in 0..10 {
        for k in 0..5 {
            assert_eq!(*grid.get_tile(i, 5 + k), grid.get_tile(i, 4 - k).reflect_v());
        }
    }
    for k in 0..5 {
        for j in 0..10 {
            assert_eq!(*grid.get_tile(5 + k, j), grid.get_tile(4 - k, j).reflect_h());
        }
    }
}

#[test]
fn the_order_of_the_two_reflections_does_not_matter() {
    let grid = generated(3, 4);
    assert_eq!(cells(&grid.reflect_v().reflect_h()), cells(&grid.reflect_h().reflect_v()));
}

#[test]
fn get_tile_reads_row_by_row() {
    let grid = generated(2, 3);
    let doubled = grid.reflect_v();
    // Row 1 of the doubled grid starts six cells in, not three.
    assert_eq!(doubled.get_tile(1, 0), grid.get_tile(1, 0));
    assert_eq!(doubled.get_tile(1, 2), grid.get_tile(1, 2));
}

#[test]
fn the_text_of_a_single_tile_grid_is_the_tile_block() {
    for _ in 0..20 {
        let grid = generated(1, 1);
        assert_eq!(grid.to_string(), grid.get_tile(0, 0).to_string());
    }
}

#[test]
fn the_text_sets_the_blocks_of_a_row_side_by_side() {
    let grid = generated(2, 3);
    let mut expected = String::new();
    for i in 0..2 {
        for line in 0..3 {
            for j in 0..3 {
                let block = grid.get_tile(i, j).to_string();
                let lines: Vec<&str> = block.split('\n').collect();
                expected.push_str(lines[line]);
            }
            expected.push('\n');
        }
    }
    assert_eq!(grid.to_string(), expected);
    assert_eq!(grid.to_string().chars().count(), 2 * 3 * (3 * 6 + 1));
}

#[test]
fn the_text_of_a_grid_without_columns_is_line_breaks_only() {
    let grid = generated(2, 0);
    assert_eq!(grid.to_string(), "\n\n\n\n\n\n");
}

#[test]
fn try_get_tile_finds_every_cell_of_a_populated_grid() {
    let grid = generated(3, 4);
    for i in 0..3 {
        for j in 0..4 {
            assert_eq!(grid.try_get_tile(i, j), Ok(grid.get_tile(i, j)));
        }
    }
}

#[test]
fn try_get_tile_rejects_rows_and_columns_outside_the_grid() {
    let grid = generated(3, 4);
    assert_eq!(grid.try_get_tile(3, 0), Err(TileError::IndexOutOfRange));
    assert_eq!(grid.try_get_tile(0, 4), Err(TileError::IndexOutOfRange));
    assert_eq!(grid.try_get_tile(3, 4), Err(TileError::IndexOutOfRange));
    assert_eq!(grid.try_get_tile(usize::MAX, usize::MAX), Err(TileError::IndexOutOfRange));
    // Column 4 of row 0 is not cell 0 of row 1.
    assert_eq!(grid.try_get_tile(0, 4).is_err(), true);
}

#[test]
fn try_get_tile_rejects_every_lookup_in_a_grid_without_cells() {
    let grid = TileGrid::new(2, 2);
    assert_eq!(grid.try_get_tile(0, 0), Err(TileError::IndexOutOfRange));
    assert_eq!(grid.try_get_tile(1, 1), Err(TileError::IndexOutOfRange));
    let grid = generated(0, 5);
    assert_eq!(grid.try_get_tile(0, 0), Err(TileError::IndexOutOfRange));
}
