use rusty_panther::structure::Grid;

#[test]
fn pinned_cell_survives_later_configures() {
    let mut grid = Grid::new();
    assert!(grid.column_configure(2, 50).is_ok());
    assert_eq!(grid.columns[2].share, 50);
    assert!(grid.columns[2].pinned);
    assert!(grid.column_configure(4, 10).is_ok());
    assert_eq!(grid.columns[2].share, 50);
    assert!(grid.columns[2].pinned);
    assert_eq!(grid.columns[4].share, 10);
    assert!(grid.columns[4].pinned);
    for i in [0usize, 1, 3] {
        assert_eq!(grid.columns[i].share, 13);
        assert!(!grid.columns[i].pinned);
    }
}

#[test]
fn floor_and_drop_leaves_a_short_sum() {
    let mut grid = Grid::new();
    assert!(grid.row_configure(1, 37).is_ok());
    assert_eq!(grid.rows[1].share, 37);
    assert!(grid.rows[1].pinned);
    for i in [0usize, 2, 3, 4] {
        assert_eq!(grid.rows[i].share, 15);
        assert!(!grid.rows[i].pinned);
    }
    let sum: u32 = grid.rows.iter().map(|r| r.share as u32).sum();
    assert_eq!(sum, 37 + 4 * 15);
    assert_eq!(sum, 97);
}

#[test]
fn minimum_one_char_clamp_at_the_boundary() {
    let mut grid = Grid::new();
    grid.set_width_chars(150);
    grid.set_height_chars(150);
    assert_eq!(grid.percent_to_char_width(1), 1);
    assert_eq!(grid.percent_to_char_height(1), 1);
    assert_eq!(grid.percent_to_char_width(25), 37);
    assert_eq!(grid.percent_to_char_width(50), 75);
    assert_eq!(grid.percent_to_char_width(100), 150);
}

#[test]
fn recalculate_is_idempotent() {
    let mut grid = Grid::new();
    assert!(grid.column_configure(1, 33).is_ok());
    assert!(grid.row_configure(3, 8).is_ok());
    let columns_once: Vec<(u8, bool)> = grid.columns.iter().map(|c| (c.share, c.pinned)).collect();
    let rows_once: Vec<(u8, bool)> = grid.rows.iter().map(|r| (r.share, r.pinned)).collect();
    assert!(grid.recalculate().is_ok());
    let columns_twice: Vec<(u8, bool)> = grid.columns.iter().map(|c| (c.share, c.pinned)).collect();
    let rows_twice: Vec<(u8, bool)> = grid.rows.iter().map(|r| (r.share, r.pinned)).collect();
    assert_eq!(columns_once, columns_twice);
    assert_eq!(rows_once, rows_twice);
    assert!(grid.recalculate().is_ok());
    let columns_again: Vec<(u8, bool)> = grid.columns.iter().map(|c| (c.share, c.pinned)).collect();
    assert_eq!(columns_once, columns_again);
}

#[test]
fn equal_shares_give_equal_extents() {
    let mut grid = Grid::new();
    grid.set_width_chars(123);
    grid.set_height_chars(45);
    let first_column = grid.get_column_chars(0).unwrap();
    for i in 1..5 {
        assert_eq!(grid.get_column_chars(i).unwrap(), first_column);
    }
    let first_row = grid.get_row_chars(0).unwrap();
    for i in 1..5 {
        assert_eq!(grid.get_row_chars(i).unwrap(), first_row);
    }
}
