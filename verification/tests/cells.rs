use term_grid::Alignment;
use term_grid::Dimentions;
use term_grid::Direction;
use term_grid::Grid;
use term_grid::GridCell;

#[test]
fn test_cell_from_measures_width() {
    let cell = GridCell::from(String::from("file"));

    assert_eq!(cell.contents, "file");
    assert_eq!(cell.width, 4);
    assert_eq!(cell.alignment, Alignment::Left);
}

#[test]
fn test_cell_from_measures_wide_characters() {
    // two hiragana characters: six bytes, two characters, four display
    // columns — only the display-column count is the right width
    let cell = GridCell::from(String::from("あい"));

    assert_eq!(cell.width, 4);
}

#[test]
fn test_cell_write_pads_left_aligned_on_the_right() {
    let cell = GridCell { contents: String::from("ab"), width: 2, alignment: Alignment::Left };
    let mut out = String::new();
    cell.write(&mut out, 5);

    assert_eq!(out, "ab   ");
}

#[test]
fn test_cell_write_pads_right_aligned_on_the_left() {
    let cell = GridCell { contents: String::from("ab"), width: 2, alignment: Alignment::Right };
    let mut out = String::new();
    cell.write(&mut out, 5);

    assert_eq!(out, "   ab");
}

#[test]
fn test_cell_write_never_truncates() {
    // a column narrower than the cell leaves the contents verbatim
    let cell = GridCell { contents: String::from("abcdef"), width: 6, alignment: Alignment::Left };
    let mut out = String::new();
    cell.write(&mut out, 3);

    assert_eq!(out, "abcdef");
}

#[test]
fn test_defaults() {
    assert_eq!(Alignment::default(), Alignment::Left);
    assert_eq!(Direction::default(), Direction::LeftToRight);
    let cell = GridCell::default();
    assert_eq!(cell.contents, "");
    assert_eq!(cell.width, 0);
    assert_eq!(cell.alignment, Alignment::Left);
}

#[test]
fn test_grid_new_measures_separator() {
    let cells = vec![GridCell::from(String::from("a"))];
    let grid = Grid::new(String::from("  "), Direction::LeftToRight, &cells);

    assert_eq!(grid.seperator, "  ");
    assert_eq!(grid.seperator_width, 2);
    assert_eq!(grid.direction, Direction::LeftToRight);
    assert_eq!(grid.cells.len(), 1);
}

#[test]
fn test_one_row_geometry() {
    let d = Dimentions::one_row(3);

    assert_eq!(d.num_rows, 1);
    assert_eq!(d.column_widths, vec![0, 0, 0]);
}

#[test]
fn test_total_width_sums_columns_and_separators() {
    let d = Dimentions { num_rows: 4, column_widths: vec![7, 7, 6, 7] };

    assert_eq!(d.total_width(2), 33);
    assert_eq!(d.total_width(0), 27);
}

#[test]
fn test_is_well_packed() {
    let d = Dimentions { num_rows: 4, column_widths: vec![7, 7, 6, 7] };

    // last column holds 15 % 3 == 0 cells and the row count changed
    assert!(d.is_well_packed(15, 5));
    // same row count as the previous candidate: not better packed
    assert!(!d.is_well_packed(15, 4));

    // the final column would overflow the single row: 5 % 3 == 2 > 1
    let d = Dimentions { num_rows: 1, column_widths: vec![3, 3, 3, 3] };
    assert!(!d.is_well_packed(5, 2));
}

#[test]
fn test_fitted_dimensions_lefttoright() {
    let labels = [
        "file10", "file20", "file3", "file400", "file5", "file100", "file2", "file30", "file4",
        "file500", "file1", "file200", "file300", "file40", "file50",
    ];
    let cells: Vec<GridCell> = labels.iter().map(|s| GridCell::from(String::from(*s))).collect();
    let grid = Grid::new(String::from("  "), Direction::LeftToRight, &cells);
    let display = grid.fit_into_width(35).unwrap();

    // four rows of four columns, the last row holding three entries
    assert_eq!(display.dimentions.num_rows, 4);
    assert_eq!(display.dimentions.column_widths, vec![7, 7, 6, 7]);

    // every cell's width fits within its assigned column
    for (i, cell) in cells.iter().enumerate() {
        let column = i % 4;
        assert!(cell.width <= display.dimentions.column_widths[column]);
    }
}

#[test]
fn test_fitted_dimensions_toptobottom() {
    let labels = [
        "file10", "file20", "file3", "file400", "file5", "file100", "file2", "file30", "file4",
        "file500", "file1", "file200", "file300", "file40", "file50",
    ];
    let cells: Vec<GridCell> = labels.iter().map(|s| GridCell::from(String::from(*s))).collect();
    let grid = Grid::new(String::from("  "), Direction::TopToBottom, &cells);
    let display = grid.fit_into_width(35).unwrap();

    assert_eq!(display.dimentions.num_rows, 4);
    assert_eq!(display.dimentions.column_widths, vec![7, 7, 7, 7]);

    for (i, cell) in cells.iter().enumerate() {
        let column = i / 4;
        assert!(cell.width <= display.dimentions.column_widths[column]);
    }
}
