use term_grid::Alignment;
use term_grid::Direction;
use term_grid::Grid;
use term_grid::GridCell;

fn measured(s: &str) -> GridCell {
    GridCell::from(String::from(s))
}

fn colored(s: &str, width: usize) -> GridCell {
    GridCell { contents: String::from(s), width, alignment: Alignment::Left }
}

#[test]
fn test_no_cells() {
    let cells: Vec<GridCell> = Vec::new();
    let grid = Grid::new(String::from("  "), Direction::LeftToRight, &cells);
    let display = grid.fit_into_width(80).unwrap();

    assert_eq!(display.render(), "\n");

    let grid = Grid::new(String::from("  "), Direction::TopToBottom, &cells);
    let display = grid.fit_into_width(80).unwrap();

    assert_eq!(display.render(), "\n");
}

#[test]
fn test_one_cell() {
    let cells = vec![measured("file")];
    let grid = Grid::new(String::from("  "), Direction::LeftToRight, &cells);
    let display = grid.fit_into_width(80).unwrap();

    assert_eq!(display.render(), "file\n");

    let grid = Grid::new(String::from("  "), Direction::TopToBottom, &cells);
    let display = grid.fit_into_width(80).unwrap();

    assert_eq!(display.render(), "file\n");
}

#[test]
fn test_fit_into_width_cell_longer_than_display_width() {
    let cells = vec![measured("file1"), measured("file11"), measured("file111")];
    let grid = Grid::new(String::from("  "), Direction::LeftToRight, &cells);

    assert!(grid.fit_into_width(6).is_none());

    let cells = vec![measured("file1"), measured("file111"), measured("file11")];
    let grid = Grid::new(String::from("  "), Direction::TopToBottom, &cells);

    assert!(grid.fit_into_width(6).is_none());
}

#[test]
fn test_fit_into_width_fit_into_one_line() {
    let cells = vec![
        measured("file1"),
        measured("file2"),
        measured("file3"),
        measured("file4"),
        measured("file5"),
    ];
    let grid = Grid::new(String::from("  "), Direction::LeftToRight, &cells);
    let display = grid.fit_into_width(35).unwrap();

    assert_eq!(display.render(), "file1  file2  file3  file4  file5\n");

    let grid = Grid::new(String::from("  "), Direction::TopToBottom, &cells);
    let display = grid.fit_into_width(35).unwrap();

    assert_eq!(display.render(), "file1  file2  file3  file4  file5\n");
}

#[test]
fn test_fit_into_width_fit_into_one_line_color() {
    let cells = vec![
        colored("\x1b[31mfile1\x1b[0m", 5),
        colored("\x1b[32mfile2\x1b[0m", 5),
        colored("\x1b[33mfile3\x1b[0m", 5),
        colored("\x1b[34mfile4\x1b[0m", 5),
        colored("\x1b[35mfile5\x1b[0m", 5),
    ];
    let grid = Grid::new(String::from("  "), Direction::LeftToRight, &cells);
    let display = grid.fit_into_width(35).unwrap();

    // if evaluated in an output device which renders ansi escape sequences
    // the following will be rendered with each cell having a color:
    // "file1  file2  file3  file4  file5\n"
    assert_eq!(display.render(), "\x1b[31mfile1\x1b[0m  \x1b[32mfile2\x1b[0m  \x1b[33mfile3\x1b[0m  \x1b[34mfile4\x1b[0m  \x1b[35mfile5\x1b[0m\n");

    let grid = Grid::new(String::from("  "), Direction::TopToBottom, &cells);
    let display = grid.fit_into_width(35).unwrap();

    assert_eq!(display.render(), "\x1b[31mfile1\x1b[0m  \x1b[32mfile2\x1b[0m  \x1b[33mfile3\x1b[0m  \x1b[34mfile4\x1b[0m  \x1b[35mfile5\x1b[0m\n");
}

#[test]
fn test_fit_into_width_more_than_one_line_lefttoright() {
    let cells = vec![
        measured("file10"),
        measured("file20"),
        measured("file3"),
        measured("file400"),
        measured("file5"),
        measured("file100"),
        measured("file2"),
        measured("file30"),
        measured("file4"),
        measured("file500"),
        measured("file1"),
        measured("file200"),
        measured("file300"),
        measured("file40"),
        measured("file50"),
    ];
    let grid = Grid::new(String::from("  "), Direction::LeftToRight, &cells);
    let display = grid.fit_into_width(35).unwrap();

    assert_eq!(
        display.render(),
        "file10   file20   file3   file400\n\
         file5    file100  file2   file30\n\
         file4    file500  file1   file200\n\
         file300  file40   file50\n"
    );
}

#[test]
fn test_fit_into_width_more_than_one_line_lefttoright_color() {
    let cells = vec![
        colored("\x1b[31mfile10\x1b[0m", 6),
        colored("\x1b[32mfile20\x1b[0m", 6),
        colored("\x1b[33mfile3\x1b[0m", 5),
        colored("\x1b[34mfile400\x1b[0m", 7),
        colored("\x1b[35mfile5\x1b[0m", 5),
        colored("\x1b[31mfile100\x1b[0m", 7),
        colored("\x1b[32mfile2\x1b[0m", 5),
        colored("\x1b[33mfile30\x1b[0m", 6),
        colored("\x1b[34mfile4\x1b[0m", 5),
        colored("\x1b[35mfile500\x1b[0m", 7),
        colored("\x1b[31mfile1\x1b[0m", 5),
        colored("\x1b[32mfile200\x1b[0m", 7),
        colored("\x1b[33mfile300\x1b[0m", 7),
        colored("\x1b[34mfile40\x1b[0m", 6),
        colored("\x1b[35mfile50\x1b[0m", 6),
    ];
    let grid = Grid::new(String::from("  "), Direction::LeftToRight, &cells);
    let display = grid.fit_into_width(35).unwrap();

    // if evaluated in an output device which renders ansi escape sequences
    // the following will be rendered with each cell having a color:
    // "file10   file20   file3   file400\n\
    //  file5    file100  file2   file30\n\
    //  file4    file500  file1   file200\n\
    //  file300  file40   file50\n"
    assert_eq!(
        display.render(),
        "\x1b[31mfile10\x1b[0m   \x1b[32mfile20\x1b[0m   \x1b[33mfile3\x1b[0m   \x1b[34mfile400\x1b[0m\n\
         \x1b[35mfile5\x1b[0m    \x1b[31mfile100\x1b[0m  \x1b[32mfile2\x1b[0m   \x1b[33mfile30\x1b[0m\n\
         \x1b[34mfile4\x1b[0m    \x1b[35mfile500\x1b[0m  \x1b[31mfile1\x1b[0m   \x1b[32mfile200\x1b[0m\n\
         \x1b[33mfile300\x1b[0m  \x1b[34mfile40\x1b[0m   \x1b[35mfile50\x1b[0m\n"
    );
}

#[test]
fn test_fit_into_width_more_than_one_line_toptobottom() {
    let cells = vec![
        measured("file10"),
        measured("file20"),
        measured("file3"),
        measured("file400"),
        measured("file5"),
        measured("file100"),
        measured("file2"),
        measured("file30"),
        measured("file4"),
        measured("file500"),
        measured("file1"),
        measured("file200"),
        measured("file300"),
        measured("file40"),
        measured("file50"),
    ];
    let grid = Grid::new(String::from("  "), Direction::TopToBottom, &cells);
    let display = grid.fit_into_width(35).unwrap();

    assert_eq!(
        display.render(),
        "file10   file5    file4    file300\n\
         file20   file100  file500  file40\n\
         file3    file2    file1    file50\n\
         file400  file30   file200\n"
    );
}

#[test]
fn test_fit_into_width_more_than_one_line_toptobottom_color() {
    let cells = vec![
        colored("\x1b[31mfile10\x1b[0m", 6),
        colored("\x1b[32mfile20\x1b[0m", 6),
        colored("\x1b[33mfile3\x1b[0m", 5),
        colored("\x1b[34mfile400\x1b[0m", 7),
        colored("\x1b[35mfile5\x1b[0m", 5),
        colored("\x1b[31mfile100\x1b[0m", 7),
        colored("\x1b[32mfile2\x1b[0m", 5),
        colored("\x1b[33mfile30\x1b[0m", 6),
        colored("\x1b[34mfile4\x1b[0m", 5),
        colored("\x1b[35mfile500\x1b[0m", 7),
        colored("\x1b[31mfile1\x1b[0m", 5),
        colored("\x1b[32mfile200\x1b[0m", 7),
        colored("\x1b[33mfile300\x1b[0m", 7),
        colored("\x1b[34mfile40\x1b[0m", 6),
        colored("\x1b[35mfile50\x1b[0m", 6),
    ];
    let grid = Grid::new(String::from("  "), Direction::TopToBottom, &cells);
    let display = grid.fit_into_width(35).unwrap();

    // if evaluated in an output device which renders ansi escape sequences
    // the following will be rendered with each cell having a color:
    // "file10   file5    file4    file300\n\
    //  file20   file100  file500  file40\n\
    //  file3    file2    file1    file50\n\
    //  file400  file30   file200\n"
    assert_eq!(
        display.render(),
        "\x1b[31mfile10\x1b[0m   \x1b[35mfile5\x1b[0m    \x1b[34mfile4\x1b[0m    \x1b[33mfile300\x1b[0m\n\
         \x1b[32mfile20\x1b[0m   \x1b[31mfile100\x1b[0m  \x1b[35mfile500\x1b[0m  \x1b[34mfile40\x1b[0m\n\
         \x1b[33mfile3\x1b[0m    \x1b[32mfile2\x1b[0m    \x1b[31mfile1\x1b[0m    \x1b[35mfile50\x1b[0m\n\
         \x1b[34mfile400\x1b[0m  \x1b[33mfile30\x1b[0m   \x1b[32mfile200\x1b[0m\n"
    );
}

#[test]
fn test_fit_into_width_boundary_of_infeasibility() {
    // a single cell is infeasible when its width equals the budget,
    // feasible as soon as the budget exceeds it
    let cells = vec![measured("file111")];
    let grid = Grid::new(String::from("  "), Direction::LeftToRight, &cells);

    assert!(grid.fit_into_width(7).is_none());
    assert_eq!(grid.fit_into_width(8).unwrap().render(), "file111\n");
}

#[test]
fn test_fit_into_width_zero_separator() {
    let cells = vec![measured("file1"), measured("file2")];
    let grid = Grid::new(String::new(), Direction::LeftToRight, &cells);
    let display = grid.fit_into_width(10).unwrap();

    assert_eq!(display.render(), "file1file2\n");
}

#[test]
fn test_fit_into_width_single_right_aligned_cell() {
    // the no-trailing-separator exemption applies only to left-aligned
    // cells: a right-aligned cell keeps its separator even at the line end
    let cells = vec![GridCell {
        contents: String::from("file"),
        width: 4,
        alignment: Alignment::Right,
    }];
    let grid = Grid::new(String::from("  "), Direction::LeftToRight, &cells);
    let display = grid.fit_into_width(80).unwrap();

    assert_eq!(display.render(), "file  \n");
}

#[test]
fn test_fit_into_width_rendering_is_repeatable() {
    let cells = vec![
        measured("file10"),
        measured("file20"),
        measured("file3"),
        measured("file400"),
        measured("file5"),
    ];
    let grid = Grid::new(String::from("  "), Direction::TopToBottom, &cells);

    let first = grid.fit_into_width(14).unwrap().render();
    let second = grid.fit_into_width(14).unwrap().render();

    assert_eq!(first, second);
    assert_eq!(first, "file10\nfile20\nfile3\nfile400\nfile5\n");
}
