//! The library's general guarantees, stated and proved over the spec
//! functions that the executable contracts use.

use vstd::prelude::*;

use crate::cell::Alignment;
use crate::cell::GridCell;
use crate::cell::spec_padded;
use crate::cell::spec_spaces;
use crate::display::spec_cell_at;
use crate::display::spec_cell_piece;
use crate::display::spec_render;
use crate::display::spec_render_from;
use crate::layout::Dimentions;
use crate::layout::Direction;
use crate::layout::dims_for;
use crate::layout::lemma_column_of_in_range;
use crate::layout::lemma_column_widths_upto_props;
use crate::layout::spec_column_of;
use crate::layout::spec_column_widths;
use crate::layout::spec_num_rows;

verus! {

/// Rendering an empty cell collection always yields exactly one newline,
/// whatever geometry is used.
pub proof fn lemma_render_empty(cells: Seq<GridCell>, sep: Seq<char>, dir: Direction, d: Dimentions)
    requires
        cells.len() == 0,
    ensures
        spec_render(cells, sep, dir, d) == seq!['\n'],
{
}

/// Produced geometries are a function of the inputs alone: two geometries
/// computed for the same cells, direction and column count are equal, so
/// repeating a layout call yields identical output.
pub proof fn lemma_layout_deterministic(
    d1: Dimentions,
    d2: Dimentions,
    cells: Seq<GridCell>,
    dir: Direction,
    num_columns: int,
)
    requires
        dims_for(d1, cells, dir, num_columns),
        dims_for(d2, cells, dir, num_columns),
    ensures
        d1.num_rows == d2.num_rows,
        d1.column_widths@ == d2.column_widths@,
{
}

/// Every cell's display width is bounded by the width of the column it is
/// assigned to, in any geometry the column-width fold produces.
pub proof fn lemma_cell_width_le_column_width(
    cells: Seq<GridCell>,
    dir: Direction,
    num_columns: int,
    i: int,
)
    requires
        num_columns >= 1,
        0 <= i < cells.len(),
    ensures
        0 <= spec_column_of(dir, i, num_columns, spec_num_rows(cells.len() as int, num_columns))
            < num_columns,
        cells[i].width <= spec_column_widths(cells, dir, num_columns)[
            spec_column_of(dir, i, num_columns, spec_num_rows(cells.len() as int, num_columns))
        ],
{
    let rows = spec_num_rows(cells.len() as int, num_columns);
    lemma_column_of_in_range(cells.len() as int, dir, num_columns, i);
    lemma_column_widths_upto_props(cells, dir, num_columns, rows, cells.len() as int);
}

/// A right-aligned cell is never exempt from padding: whatever its
/// position, its piece is the padded contents followed by the separator,
/// and the padding spaces sit on the left of the contents.
pub proof fn lemma_right_aligned_cell_is_padded(
    cell: GridCell,
    sep: Seq<char>,
    exempt: bool,
    col_width: int,
)
    requires
        cell.alignment == Alignment::Right,
    ensures
        spec_cell_piece(cell, sep, exempt, col_width) == spec_padded(cell, col_width) + sep,
        col_width > cell.width ==> spec_padded(cell, col_width) == spec_spaces(
            col_width - cell.width,
        ) + cell.contents@,
{
}

/// A left-aligned cell wider than its column is written verbatim, and one
/// narrower than its column receives its padding spaces on the right.
pub proof fn lemma_left_aligned_cell_pads_right(cell: GridCell, col_width: int)
    requires
        cell.alignment == Alignment::Left,
    ensures
        col_width <= cell.width ==> spec_padded(cell, col_width) == cell.contents@,
        col_width > cell.width ==> spec_padded(cell, col_width) == cell.contents@ + spec_spaces(
            col_width - cell.width,
        ),
{
}

/// Rendering a single left-aligned cell in a one-row geometry yields the
/// cell's contents followed by a newline, with no padding or separator.
pub proof fn lemma_render_single_cell(
    cells: Seq<GridCell>,
    sep: Seq<char>,
    dir: Direction,
    d: Dimentions,
)
    requires
        cells.len() == 1,
        cells[0].alignment == Alignment::Left,
        d.num_rows == 1,
        d.column_widths@.len() >= 1,
    ensures
        spec_render(cells, sep, dir, d) == cells[0].contents@ + seq!['\n'],
{
    let k = d.column_widths@.len() as int;
    vstd::arithmetic::mul::lemma_mul_basics(k);
    assert(spec_cell_at(dir, 0, 0, k, 1) == 0);
    lemma_render_single_cell_rest(cells, sep, dir, d, 1);
    assert(spec_render_from(cells, sep, dir, d, 0, 0, 0) =~= cells[0].contents@ + seq!['\n']);
}

/// After the single cell of a one-row, one-cell grid has been written, the
/// remaining positions of the row are skipped and only the newline is left.
proof fn lemma_render_single_cell_rest(
    cells: Seq<GridCell>,
    sep: Seq<char>,
    dir: Direction,
    d: Dimentions,
    col: int,
)
    requires
        cells.len() == 1,
        d.num_rows == 1,
        1 <= col <= d.column_widths@.len(),
    ensures
        spec_render_from(cells, sep, dir, d, 0, col, 1) == seq!['\n'],
    decreases d.column_widths@.len() - col,
{
    let k = d.column_widths@.len() as int;
    if col >= k {
        assert(spec_render_from(cells, sep, dir, d, 1, 0, 1) == Seq::<char>::empty());
        assert(seq!['\n'] + Seq::<char>::empty() =~= seq!['\n']);
    } else {
        assert(spec_cell_at(dir, 0, col, k, 1) == col) by {
            vstd::arithmetic::mul::lemma_mul_basics(k);
            vstd::arithmetic::mul::lemma_mul_basics(col);
        }
        lemma_render_single_cell_rest(cells, sep, dir, d, col + 1);
    }
}

/// The text of a single row holding every cell from index `i` on: each
/// cell's contents followed by the separator, except that a left-aligned
/// final cell omits it, closed by a newline.
pub open spec fn spec_one_row_text(cells: Seq<GridCell>, sep: Seq<char>, i: int) -> Seq<char>
    decreases cells.len() - i,
{
    if 0 <= i < cells.len() {
        if i == cells.len() - 1 && cells[i].alignment == Alignment::Left {
            cells[i].contents@ + spec_one_row_text(cells, sep, i + 1)
        } else {
            cells[i].contents@ + sep + spec_one_row_text(cells, sep, i + 1)
        }
    } else {
        seq!['\n']
    }
}

/// When the geometry is a single row with one zero-width column per cell,
/// rendering writes all cells in order on that row, separated by the
/// separator, with no padding anywhere.
pub proof fn lemma_render_one_row(cells: Seq<GridCell>, sep: Seq<char>, dir: Direction, d: Dimentions)
    requires
        cells.len() >= 1,
        d.num_rows == 1,
        d.column_widths@ == Seq::new(cells.len(), |c: int| 0usize),
    ensures
        spec_render(cells, sep, dir, d) == spec_one_row_text(cells, sep, 0),
{
    lemma_render_one_row_from(cells, sep, dir, d, 0);
}

/// The inductive step behind [`lemma_render_one_row`]: from column `col`
/// onwards, with `col` cells already written.
proof fn lemma_render_one_row_from(
    cells: Seq<GridCell>,
    sep: Seq<char>,
    dir: Direction,
    d: Dimentions,
    col: int,
)
    requires
        cells.len() >= 1,
        d.num_rows == 1,
        d.column_widths@ == Seq::new(cells.len(), |c: int| 0usize),
        0 <= col <= cells.len(),
    ensures
        spec_render_from(cells, sep, dir, d, 0, col, col) == spec_one_row_text(cells, sep, col),
    decreases cells.len() - col,
{
    let n = cells.len() as int;
    let k = d.column_widths@.len() as int;
    if col >= n {
        assert(spec_render_from(cells, sep, dir, d, 1, 0, col) == Seq::<char>::empty());
        assert(seq!['\n'] + Seq::<char>::empty() =~= seq!['\n']);
    } else {
        assert(spec_cell_at(dir, 0, col, k, 1) == col) by {
            vstd::arithmetic::mul::lemma_mul_basics(k);
            vstd::arithmetic::mul::lemma_mul_basics(col);
        }
        let exempt = col == k - 1 || col + 1 == n;
        let piece = spec_cell_piece(cells[col], sep, exempt, d.column_widths@[col] as int);
        assert(d.column_widths@[col] == 0usize);
        assert(spec_padded(cells[col], 0) == cells[col].contents@);
        lemma_render_one_row_from(cells, sep, dir, d, col + 1);
        if exempt && cells[col].alignment == Alignment::Left {
            assert(piece == cells[col].contents@);
        } else {
            assert(piece =~= cells[col].contents@ + sep);
        }
        assert(piece + spec_render_from(cells, sep, dir, d, 0, col + 1, col + 1)
            =~= spec_one_row_text(cells, sep, col));
    }
}

} // verus!
