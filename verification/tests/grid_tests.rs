use rusty_panther::structure::Grid;
use rusty_panther::structure::GridColumn;
use rusty_panther::structure::GridError;
use rusty_panther::structure::GridRow;

fn test_grid() -> Grid {
    let mut grid = Grid::builder().width(10).unwrap().height(5).unwrap().build();
    grid.set_width_chars(150);
    grid.set_height_chars(36);
    grid
}

#[test]
fn test_get_placement_chars() {
    let grid = test_grid();
    assert_eq!(grid.get_placement_chars(1, 2).unwrap(), (1, 7));
    assert_eq!(grid.get_placement_chars(2, 3).unwrap(), (16, 14));
}

#[test]
fn test_get_placement_percent() {
    let grid = test_grid();
    assert_eq!(grid.get_placement_percent(1, 2).unwrap(), (1, 21));
    assert_eq!(grid.get_placement_percent(2, 3).unwrap(), (11, 41));
}

#[test]
fn test_percent_to_char_height() {
    let grid = test_grid();
    assert_eq!(grid.percent_to_char_height(100), 36);
    assert_eq!(grid.percent_to_char_height(50), 18);
    assert_eq!(grid.percent_to_char_height(25), 9);
    assert_eq!(grid.percent_to_char_height(1), 1);
}

#[test]
fn test_percent_to_char_width() {
    let grid = test_grid();
    assert_eq!(grid.percent_to_char_width(100), 150);
    assert_eq!(grid.percent_to_char_width(50), 75);
    assert_eq!(grid.percent_to_char_width(25), 37);
    assert_eq!(grid.percent_to_char_width(1), 1);
}

#[test]
fn default_grid_is_five_by_five_equal_split() {
    let grid = Grid::new();
    assert_eq!(grid.columns.len(), 5);
    assert_eq!(grid.rows.len(), 5);
    for c in &grid.columns {
        assert_eq!(c.share, 20);
        assert!(!c.pinned);
    }
    for r in &grid.rows {
        assert_eq!(r.share, 20);
        assert!(!r.pinned);
    }
    assert_eq!(grid.width_chars, 0);
    assert_eq!(grid.height_chars, 0);
}

#[test]
fn resize_uses_floored_equal_shares() {
    let grid = Grid::builder().width(7).unwrap().height(3).unwrap().build();
    assert_eq!(grid.columns.len(), 7);
    for c in &grid.columns {
        assert_eq!(c.share, 14);
        assert!(!c.pinned);
    }
    assert_eq!(grid.rows.len(), 3);
    for r in &grid.rows {
        assert_eq!(r.share, 33);
        assert!(!r.pinned);
    }
}

#[test]
fn resize_to_zero_is_invalid_length() {
    assert_eq!(Grid::builder().width(0).unwrap_err(), GridError::InvalidLength);
    assert_eq!(Grid::builder().height(0).unwrap_err(), GridError::InvalidLength);
}

#[test]
fn configure_past_the_axis_is_index_out_of_range() {
    let mut grid = Grid::new();
    let before: Vec<u8> = grid.columns.iter().map(|c| c.share).collect();
    assert_eq!(grid.column_configure(5, 10).unwrap_err(), GridError::IndexOutOfRange);
    assert_eq!(grid.row_configure(9, 10).unwrap_err(), GridError::IndexOutOfRange);
    let after: Vec<u8> = grid.columns.iter().map(|c| c.share).collect();
    assert_eq!(before, after);
}

#[test]
fn queries_past_the_axis_are_index_out_of_range() {
    let grid = test_grid();
    assert_eq!(grid.get_column_chars(10).unwrap_err(), GridError::IndexOutOfRange);
    assert_eq!(grid.get_row_chars(5).unwrap_err(), GridError::IndexOutOfRange);
    assert_eq!(grid.get_placement_percent(11, 1).unwrap_err(), GridError::IndexOutOfRange);
    assert_eq!(grid.get_placement_chars(1, 6).unwrap_err(), GridError::IndexOutOfRange);
}

#[test]
fn over_allocation_is_reported_and_keeps_the_pin() {
    let mut grid = Grid::new();
    assert!(grid.column_configure(0, 60).is_ok());
    assert_eq!(grid.columns[0].share, 60);
    assert!(grid.columns[0].pinned);
    for i in 1..5 {
        assert_eq!(grid.columns[i].share, 10);
        assert!(!grid.columns[i].pinned);
    }
    assert_eq!(grid.column_configure(1, 60).unwrap_err(), GridError::OverAllocation);
    assert_eq!(grid.columns[0].share, 60);
    assert_eq!(grid.columns[1].share, 60);
    assert!(grid.columns[1].pinned);
    for i in 2..5 {
        assert_eq!(grid.columns[i].share, 10);
    }
}

#[test]
fn get_column_and_row_chars_use_the_cell_share() {
    let mut grid = test_grid();
    assert_eq!(grid.get_column_chars(0).unwrap(), 15);
    assert_eq!(grid.get_row_chars(0).unwrap(), 7);
    assert!(grid.column_configure(2, 50).is_ok());
    assert_eq!(grid.get_column_chars(2).unwrap(), 75);
    assert_eq!(grid.get_column_chars(0).unwrap(), 7);
}

#[test]
fn conversion_clamps_to_one_and_saturates() {
    let mut grid = Grid::new();
    grid.set_width_chars(3);
    grid.set_height_chars(3);
    assert_eq!(grid.percent_to_char_width(1), 1);
    assert_eq!(grid.percent_to_char_width(0), 1);
    assert_eq!(grid.percent_to_char_height(1), 1);
    grid.set_width_chars(65535);
    assert_eq!(grid.percent_to_char_width(255), 65535);
    assert_eq!(grid.percent_to_char_width(100), 65535);
}

#[test]
fn set_size_chars_changes_only_the_dimensions() {
    let mut grid = Grid::new();
    grid.set_width_chars(80);
    grid.set_height_chars(24);
    assert_eq!(grid.width_chars, 80);
    assert_eq!(grid.height_chars, 24);
    assert_eq!(grid.percent_to_char_width(50), 40);
    assert_eq!(grid.percent_to_char_height(50), 12);
    assert_eq!(grid.columns.len(), 5);
    assert_eq!(grid.columns[0].share, 20);
}

#[test]
fn grid_cell_copy_preserves_the_configuration() {
    let column = GridColumn { share: 42, pinned: true };
    let copied = column.copy();
    assert_eq!(copied.share, 42);
    assert!(copied.pinned);
    let row = GridRow { share: 7, pinned: false };
    let copied = row.copy();
    assert_eq!(copied.share, 7);
    assert!(!copied.pinned);
}

#[test]
fn build_returns_the_configured_grid() {
    let grid = Grid::builder().build();
    assert_eq!(grid.columns.len(), 5);
    assert_eq!(grid.rows.len(), 5);
}
