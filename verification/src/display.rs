//! Rendering: walking a grid geometry row by row and writing padded cells
//! with separators, one line per row.

use vstd::prelude::*;

use crate::cell::Alignment;
use crate::cell::GridCell;
use crate::cell::spec_padded;
use crate::grid::Grid;
use crate::layout::Dimentions;
use crate::layout::Direction;

verus! {

/// The displayable representation of a [`Grid`]: a geometry together with
/// the grid it was computed from.
#[derive(Debug)]
pub struct Display<'grid> {
    /// The geometry to render.
    pub dimentions: Dimentions,
    /// The grid whose cells and separator are rendered.
    pub grid: &'grid Grid<'grid>,
}

/// The cell index shown at `(row, col)` of a grid with `num_columns`
/// columns and `num_rows` rows; the inverse of the forward mapping from
/// cell index to column.
pub open spec fn spec_cell_at(
    dir: Direction,
    row: int,
    col: int,
    num_columns: int,
    num_rows: int,
) -> int {
    match dir {
        Direction::LeftToRight => row * num_columns + col,
        Direction::TopToBottom => row + num_rows * col,
    }
}

/// What one cell contributes to its row: its contents verbatim when it sits
/// at an exempt position (last column of its row, or the last cell written)
/// and is left-aligned; otherwise its contents padded to the column width,
/// followed by the separator.
pub open spec fn spec_cell_piece(
    cell: GridCell,
    sep: Seq<char>,
    exempt: bool,
    col_width: int,
) -> Seq<char> {
    if exempt && cell.alignment == Alignment::Left {
        cell.contents@
    } else {
        spec_padded(cell, col_width) + sep
    }
}

/// The text rendered from position `(row, col)` onwards, with `written`
/// cells already written: each position holding a real cell contributes its
/// piece, positions past the last cell are skipped, and every row ends with
/// a newline.
pub open spec fn spec_render_from(
    cells: Seq<GridCell>,
    sep: Seq<char>,
    dir: Direction,
    d: Dimentions,
    row: int,
    col: int,
    written: int,
) -> Seq<char>
    decreases d.num_rows - row, d.column_widths@.len() - col,
{
    let rows = d.num_rows as int;
    let k = d.column_widths@.len() as int;
    if row < 0 || col < 0 || row >= rows {
        Seq::empty()
    } else if col >= k {
        seq!['\n'] + spec_render_from(cells, sep, dir, d, row + 1, 0, written)
    } else {
        let idx = spec_cell_at(dir, row, col, k, rows);
        if 0 <= idx < cells.len() {
            spec_cell_piece(
                cells[idx],
                sep,
                col == k - 1 || written + 1 == cells.len(),
                d.column_widths@[col] as int,
            ) + spec_render_from(cells, sep, dir, d, row, col + 1, written + 1)
        } else {
            spec_render_from(cells, sep, dir, d, row, col + 1, written)
        }
    }
}

/// The full text rendered for `cells` under geometry `d`: a single newline
/// for an empty collection, otherwise the traversal starting at the origin.
pub open spec fn spec_render(
    cells: Seq<GridCell>,
    sep: Seq<char>,
    dir: Direction,
    d: Dimentions,
) -> Seq<char> {
    if cells.len() == 0 {
        seq!['\n']
    } else {
        spec_render_from(cells, sep, dir, d, 0, 0, 0)
    }
}

impl<'grid> Display<'grid> {
    /// Renders the grid as text: one line per row, columns separated by the
    /// grid's separator, each row terminated by a newline.
    pub fn render(&self) -> (out: String)
        requires
            self.grid.cells@.len() >= 1 ==> self.dimentions.column_widths@.len() >= 1,
        ensures
            out@ == spec_render(
                self.grid.cells@,
                self.grid.seperator@,
                self.grid.direction,
                self.dimentions,
            ),
    {
        let ghost cells = self.grid.cells@;
        let ghost sep = self.grid.seperator@;
        let ghost dir = self.grid.direction;
        let ghost d = self.dimentions;
        let ghost goal = spec_render(cells, sep, dir, d);

        let mut out = String::new();
        let total_cell_count = self.grid.total_cell_count();
        if total_cell_count == 0 {
            out.append("\n");
            proof {
                reveal_strlit("\n");
                assert(out@ =~= seq!['\n']);
            }
            return out;
        }
        let last_cell_index = total_cell_count - 1;
        let num_columns = self.dimentions.column_widths.len();
        let last_column_index = num_columns - 1;
        let num_rows = self.dimentions.num_rows;
        let ghost k = num_columns as int;
        let ghost rows = num_rows as int;
        let mut cell_count: u128 = 0;

        let mut row_index: usize = 0;
        while row_index < num_rows
            invariant
                row_index <= num_rows,
                num_rows == d.num_rows,
                k == d.column_widths@.len() as int,
                rows == d.num_rows as int,
                num_columns == d.column_widths@.len(),
                num_columns >= 1,
                total_cell_count == cells.len(),
                total_cell_count >= 1,
                last_cell_index == total_cell_count - 1,
                last_column_index == num_columns - 1,
                cells == self.grid.cells@,
                sep == self.grid.seperator@,
                dir == self.grid.direction,
                d == self.dimentions,
                cell_count as int <= row_index as int * k,
                out@ + spec_render_from(cells, sep, dir, d, row_index as int, 0, cell_count as int)
                    == goal,
            decreases num_rows - row_index,
        {
            let mut column_index: usize = 0;
            while column_index < num_columns
                invariant
                    column_index <= num_columns,
                    row_index < num_rows,
                    num_rows == d.num_rows,
                    k == d.column_widths@.len() as int,
                    rows == d.num_rows as int,
                    num_columns == d.column_widths@.len(),
                    num_columns >= 1,
                    total_cell_count == cells.len(),
                    total_cell_count >= 1,
                    last_cell_index == total_cell_count - 1,
                    last_column_index == num_columns - 1,
                    cells == self.grid.cells@,
                    sep == self.grid.seperator@,
                    dir == self.grid.direction,
                    d == self.dimentions,
                    cell_count as int <= row_index as int * k + column_index as int,
                    out@ + spec_render_from(
                        cells,
                        sep,
                        dir,
                        d,
                        row_index as int,
                        column_index as int,
                        cell_count as int,
                    ) == goal,
                decreases num_columns - column_index,
            {
                proof {
                    assert(row_index as int * k + column_index as int + 1 <= rows * k)
                        by (nonlinear_arith)
                        requires
                            (row_index as int) < rows,
                            (column_index as int) < k,
                            k >= 1,
                    ;
                    assert(rows * k < 0x100000000000000000000000000000000int) by (nonlinear_arith)
                        requires
                            0 <= rows <= 0xffffffffffffffffint,
                            0 <= k <= 0xffffffffffffffffint,
                    ;
                }
                let cell_index128: u128 = match self.grid.direction {
                    Direction::LeftToRight => {
                        proof {
                            assert(row_index as int * k + column_index as int == spec_cell_at(
                                dir,
                                row_index as int,
                                column_index as int,
                                k,
                                rows,
                            ));
                        }
                        (row_index as u128) * (num_columns as u128) + (column_index as u128)
                    },
                    Direction::TopToBottom => {
                        proof {
                            assert(row_index as int + rows * column_index as int <= rows * k)
                                by (nonlinear_arith)
                                requires
                                    0 <= (row_index as int) < rows,
                                    0 <= (column_index as int) < k,
                            ;
                        }
                        (row_index as u128) + (num_rows as u128) * (column_index as u128)
                    },
                };
                proof {
                    assert(cell_index128 as int == spec_cell_at(
                        dir,
                        row_index as int,
                        column_index as int,
                        k,
                        rows,
                    ));
                }

                if cell_index128 > last_cell_index as u128 {
                    // this position lies past the last cell, in the final,
                    // partially filled row or column
                } else {
                    let cell_index = cell_index128 as usize;
                    cell_count = cell_count + 1;
                    let cell = &self.grid.cells[cell_index];
                    let ghost exempt = (column_index as int == k - 1 || cell_count as int
                        == cells.len());
                    let ghost piece = spec_cell_piece(
                        cells[cell_index as int],
                        sep,
                        exempt,
                        d.column_widths@[column_index as int] as int,
                    );
                    let ghost out_before = out@;

                    if ((column_index == last_column_index) || (cell_count
                        == total_cell_count as u128)) && cell.alignment == Alignment::Left {
                        out.append(cell.contents.as_str());
                    } else {
                        cell.write(&mut out, self.dimentions.column_widths[column_index]);
                        out.append(self.grid.seperator.as_str());
                    }
                    proof {
                        assert(out@ =~= out_before + piece);
                        assert(out_before + piece + spec_render_from(
                            cells,
                            sep,
                            dir,
                            d,
                            row_index as int,
                            column_index as int + 1,
                            cell_count as int,
                        ) =~= out_before + (piece + spec_render_from(
                            cells,
                            sep,
                            dir,
                            d,
                            row_index as int,
                            column_index as int + 1,
                            cell_count as int,
                        )));
                    }
                }
                column_index = column_index + 1;
            }
            out.append("\n");
            proof {
                reveal_strlit("\n");
                let tail = spec_render_from(cells, sep, dir, d, row_index as int + 1, 0, cell_count as int);
                assert(spec_render_from(cells, sep, dir, d, row_index as int, k, cell_count as int)
                    == seq!['\n'] + tail);
                assert(out@ + tail =~= goal);
                assert(cell_count as int <= (row_index as int + 1) * k) by (nonlinear_arith)
                    requires
                        cell_count as int <= row_index as int * k + k,
                ;
            }
            row_index = row_index + 1;
        }
        proof {
            assert(spec_render_from(cells, sep, dir, d, rows, 0, cell_count as int)
                =~= Seq::<char>::empty());
            assert(out@ =~= goal);
        }
        out
    }
}

} // verus!
