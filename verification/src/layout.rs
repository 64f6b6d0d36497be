//! Grid geometry: the traversal direction, the ceiling division that turns a
//! cell count and column count into a row count, the mapping from cell index
//! to column, and the per-column widths derived from a cell collection.

use vstd::prelude::*;

use crate::cell::GridCell;

verus! {

/// Indicates the order in which grid cells are laid out.
#[derive(Debug, PartialEq, Eq, Structural)]
pub enum Direction {
    /// Fills rows left to right, wrapping to the next row, like a typewriter.
    LeftToRight,
    /// Fills columns top to bottom before advancing to the next column, like
    /// a directory listing lists files by default.
    TopToBottom,
}

impl Default for Direction {
    fn default() -> (d: Self)
        ensures
            d == Direction::LeftToRight,
    {
        Direction::LeftToRight
    }
}

/// The geometry of one candidate grid: a row count and the width of every
/// column.
#[derive(Debug)]
pub struct Dimentions {
    /// How many rows the grid has.
    pub num_rows: usize,
    /// The width of each column; its length is the number of columns.
    pub column_widths: Vec<usize>,
}

impl Default for Dimentions {
    fn default() -> (d: Self)
        ensures
            d.num_rows == 0,
            d.column_widths@ == Seq::<usize>::empty(),
    {
        Dimentions { num_rows: 0, column_widths: Vec::new() }
    }
}

/// The quotient of `lhs` and `rhs`, rounded towards positive infinity.
pub open spec fn spec_div_ceil(lhs: int, rhs: int) -> int
    recommends
        rhs >= 1,
{
    lhs / rhs + if lhs % rhs > 0 {
        1int
    } else {
        0int
    }
}

/// The row count used for `cell_count` cells spread over `num_columns`
/// columns.
pub open spec fn spec_num_rows(cell_count: int, num_columns: int) -> int
    recommends
        num_columns >= 1,
{
    spec_div_ceil(cell_count, num_columns)
}

/// The column that the cell at `cell_index` is assigned to.
pub open spec fn spec_column_of(
    dir: Direction,
    cell_index: int,
    num_columns: int,
    num_rows: int,
) -> int {
    match dir {
        Direction::LeftToRight => cell_index % num_columns,
        Direction::TopToBottom => cell_index / num_rows,
    }
}

/// The per-column widths after the first `m` cells have been assigned:
/// every column starts at width zero and grows to the largest width among
/// the cells mapped to it.
pub open spec fn spec_column_widths_upto(
    cells: Seq<GridCell>,
    dir: Direction,
    num_columns: int,
    num_rows: int,
    m: int,
) -> Seq<usize>
    recommends
        num_columns >= 1,
        0 <= m <= cells.len(),
    decreases m,
{
    if m <= 0 {
        Seq::new(num_columns as nat, |c: int| 0usize)
    } else {
        let prev = spec_column_widths_upto(cells, dir, num_columns, num_rows, m - 1);
        let c = spec_column_of(dir, m - 1, num_columns, num_rows);
        let w = cells[m - 1].width;
        if 0 <= c < num_columns && prev[c] < w {
            prev.update(c, w)
        } else {
            prev
        }
    }
}

/// The per-column widths of the grid that places `cells` in `num_columns`
/// columns, traversed in direction `dir`.
pub open spec fn spec_column_widths(
    cells: Seq<GridCell>,
    dir: Direction,
    num_columns: int,
) -> Seq<usize> {
    spec_column_widths_upto(
        cells,
        dir,
        num_columns,
        spec_num_rows(cells.len() as int, num_columns),
        cells.len() as int,
    )
}

/// Holds when `d` is exactly the geometry computed for `cells` in
/// `num_columns` columns: the ceiling row count and the per-column maxima.
pub open spec fn dims_for(
    d: Dimentions,
    cells: Seq<GridCell>,
    dir: Direction,
    num_columns: int,
) -> bool {
    &&& d.num_rows == spec_num_rows(cells.len() as int, num_columns)
    &&& d.column_widths@ == spec_column_widths(cells, dir, num_columns)
}

/// The sum of a sequence of widths.
pub open spec fn sum_usizes(s: Seq<usize>) -> int
    decreases s.len(),
{
    if s.len() == 0 {
        0
    } else {
        sum_usizes(s.drop_last()) + s.last()
    }
}

/// The sum of the display widths of a cell collection.
pub open spec fn sum_widths(cells: Seq<GridCell>) -> int
    decreases cells.len(),
{
    if cells.len() == 0 {
        0
    } else {
        sum_widths(cells.drop_last()) + cells.last().width
    }
}

/// The largest display width in a cell collection, zero when it is empty.
pub open spec fn spec_max_width(cells: Seq<GridCell>) -> int
    decreases cells.len(),
{
    if cells.len() == 0 {
        0
    } else if cells.last().width >= spec_max_width(cells.drop_last()) {
        cells.last().width as int
    } else {
        spec_max_width(cells.drop_last())
    }
}

/// The total width of a grid whose columns have the given widths, separated
/// by `sep` columns between adjacent columns.
pub open spec fn spec_total_width(widths: Seq<usize>, sep: int) -> int
    recommends
        widths.len() >= 1,
{
    sum_usizes(widths) + (widths.len() - 1) * sep
}

/// The width that all cells occupy when placed on a single row with `sep`
/// separator columns between adjacent cells.
pub open spec fn spec_natural_width(cells: Seq<GridCell>, sep: int) -> int
    recommends
        cells.len() >= 1,
{
    sum_widths(cells) + (cells.len() - 1) * sep
}

/// The packing-quality test: the last column's occupancy stays within the
/// row count, and the row count genuinely differs from the previously
/// adopted candidate's.
pub open spec fn spec_well_packed(
    cell_count: int,
    num_columns: int,
    num_rows: int,
    previous_num_rows: int,
) -> bool
    recommends
        num_columns >= 2,
{
    &&& cell_count % (num_columns - 1) <= num_rows
    &&& num_rows != previous_num_rows
}

/// Calculates the quotient of `lhs` and `rhs`, rounding the result towards
/// positive infinity.
pub(crate) fn usize_div_ceil(lhs: usize, rhs: usize) -> (r: usize)
    requires
        rhs >= 1,
    ensures
        r as int == spec_div_ceil(lhs as int, rhs as int),
{
    let d = lhs / rhs;
    let r = lhs % rhs;
    if r > 0 && rhs > 0 {
        proof {
            vstd::arithmetic::div_mod::lemma_fundamental_div_mod(lhs as int, rhs as int);
            assert(d < lhs) by (nonlinear_arith)
                requires
                    lhs as int == (lhs as int / rhs as int) * (rhs as int) + lhs as int % (
                    rhs as int),
                    d as int == lhs as int / rhs as int,
                    lhs as int % (rhs as int) > 0,
                    rhs >= 1,
                    d >= 0,
            ;
        }
        d + 1
    } else {
        d
    }
}

impl Dimentions {
    /// The total width of the grid: the column widths plus `spaces`
    /// separator columns between each adjacent pair of columns.
    pub fn total_width(&self, spaces: usize) -> (r: usize)
        requires
            self.column_widths@.len() >= 1,
            spec_total_width(self.column_widths@, spaces as int) <= usize::MAX,
        ensures
            r as int == spec_total_width(self.column_widths@, spaces as int),
    {
        proof {
            lemma_sum_take_full(self.column_widths@);
            assert((self.column_widths@.len() - 1) * spaces as int >= 0) by (nonlinear_arith)
                requires
                    self.column_widths@.len() >= 1,
                    spaces as int >= 0,
            ;
        }
        let n = self.column_widths.len();
        let mut sum: usize = 0;
        let mut i: usize = 0;
        while i < n
            invariant
                i <= n,
                n == self.column_widths@.len(),
                sum == sum_usizes(self.column_widths@.take(i as int)),
                sum_usizes(self.column_widths@) + (n - 1) * spaces as int <= usize::MAX,
                (n - 1) * spaces as int >= 0,
            decreases n - i,
        {
            proof {
                lemma_sum_take_succ(self.column_widths@, i as int);
                lemma_sum_take_le(self.column_widths@, i + 1);
            }
            sum = sum + self.column_widths[i];
            i = i + 1;
        }
        proof {
            assert(self.column_widths@.take(n as int) =~= self.column_widths@);
        }
        sum + (n - 1) * spaces
    }

    /// Reports whether this geometry is well packed for `cell_count` cells,
    /// compared against the previously adopted candidate's row count.
    ///
    /// For dimentions to be well packed, the following must occur:
    /// 1. the last column must have no more cells than there are rows;
    /// 2. there should be as few columns as possible: if the row count
    ///    equals the previously adopted candidate's, that candidate is the
    ///    better packed of the two, having fewer columns.
    pub fn is_well_packed(&self, cell_count: usize, previous_num_rows: usize) -> (r: bool)
        requires
            self.column_widths@.len() >= 2,
        ensures
            r == spec_well_packed(
                cell_count as int,
                self.column_widths@.len() as int,
                self.num_rows as int,
                previous_num_rows as int,
            ),
    {
        let last_col_cell_count = cell_count % (self.column_widths.len() - 1);

        (last_col_cell_count <= self.num_rows) && (self.num_rows != previous_num_rows)
    }

    /// The geometry of a single row: one column of width zero per cell.
    pub fn one_row(cell_count: usize) -> (d: Dimentions)
        ensures
            d.num_rows == 1,
            d.column_widths@ == Seq::new(cell_count as nat, |c: int| 0usize),
    {
        let mut column_widths: Vec<usize> = Vec::new();
        let mut i: usize = 0;
        while i < cell_count
            invariant
                i <= cell_count,
                column_widths@ == Seq::new(i as nat, |c: int| 0usize),
            decreases cell_count - i,
        {
            column_widths.push(0);
            i = i + 1;
            proof {
                assert(column_widths@ =~= Seq::new(i as nat, |c: int| 0usize));
            }
        }
        Dimentions { num_rows: 1, column_widths }
    }
}

/// The sum of a prefix never exceeds the sum of the whole sequence.
pub proof fn lemma_sum_take_le(s: Seq<usize>, i: int)
    requires
        0 <= i <= s.len(),
    ensures
        sum_usizes(s.take(i)) <= sum_usizes(s),
    decreases s.len() - i,
{
    if i < s.len() {
        lemma_sum_take_succ(s, i);
        lemma_sum_take_le(s, i + 1);
    } else {
        assert(s.take(i) =~= s);
    }
}

/// Extending a prefix by one element adds that element's value to its sum.
pub proof fn lemma_sum_take_succ(s: Seq<usize>, i: int)
    requires
        0 <= i < s.len(),
    ensures
        sum_usizes(s.take(i + 1)) == sum_usizes(s.take(i)) + s[i],
{
    assert(s.take(i + 1).drop_last() =~= s.take(i));
    assert(s.take(i + 1).last() == s[i]);
}

/// The full prefix of a sequence is the sequence itself.
pub proof fn lemma_sum_take_full(s: Seq<usize>)
    ensures
        sum_usizes(s.take(s.len() as int)) == sum_usizes(s),
{
    assert(s.take(s.len() as int) =~= s);
}

/// A sequence of zero widths sums to zero.
pub proof fn lemma_sum_zeros(k: int)
    requires
        k >= 0,
    ensures
        sum_usizes(Seq::new(k as nat, |c: int| 0usize)) == 0,
    decreases k,
{
    if k > 0 {
        assert(Seq::new(k as nat, |c: int| 0usize).drop_last() =~= Seq::new(
            (k - 1) as nat,
            |c: int| 0usize,
        ));
        lemma_sum_zeros(k - 1);
    }
}

/// A sum of widths is never negative.
pub proof fn lemma_sum_usizes_nonneg(s: Seq<usize>)
    ensures
        sum_usizes(s) >= 0,
    decreases s.len(),
{
    if s.len() > 0 {
        lemma_sum_usizes_nonneg(s.drop_last());
    }
}

/// A sum of cell widths is never negative.
pub proof fn lemma_sum_widths_nonneg(cells: Seq<GridCell>)
    ensures
        sum_widths(cells) >= 0,
    decreases cells.len(),
{
    if cells.len() > 0 {
        lemma_sum_widths_nonneg(cells.drop_last());
    }
}

/// Extending a prefix of cells by one adds that cell's width to the sum.
pub proof fn lemma_sum_widths_take_succ(cells: Seq<GridCell>, i: int)
    requires
        0 <= i < cells.len(),
    ensures
        sum_widths(cells.take(i + 1)) == sum_widths(cells.take(i)) + cells[i].width,
{
    assert(cells.take(i + 1).drop_last() =~= cells.take(i));
    assert(cells.take(i + 1).last() == cells[i]);
}

/// The full prefix of a cell collection is the collection itself.
pub proof fn lemma_sum_widths_take_full(cells: Seq<GridCell>)
    ensures
        sum_widths(cells.take(cells.len() as int)) == sum_widths(cells),
{
    assert(cells.take(cells.len() as int) =~= cells);
}

/// The width sum of a prefix never exceeds the sum of the whole collection.
pub proof fn lemma_sum_widths_take_le(cells: Seq<GridCell>, i: int)
    requires
        0 <= i <= cells.len(),
    ensures
        sum_widths(cells.take(i)) <= sum_widths(cells),
    decreases cells.len() - i,
{
    if i < cells.len() {
        lemma_sum_widths_take_succ(cells, i);
        lemma_sum_widths_take_le(cells, i + 1);
    } else {
        assert(cells.take(i) =~= cells);
    }
}

/// The sum of all widths is bounded by the cell count times the maximum.
pub proof fn lemma_sum_le_count_times_max(cells: Seq<GridCell>)
    ensures
        sum_widths(cells) <= cells.len() * spec_max_width(cells),
    decreases cells.len(),
{
    let n = cells.len() as int;
    let m = spec_max_width(cells);
    if n == 0 {
        assert(n * m == 0) by (nonlinear_arith)
            requires
                n == 0,
        ;
    } else {
        lemma_sum_le_count_times_max(cells.drop_last());
        lemma_max_width_nonneg(cells.drop_last());
        let md = spec_max_width(cells.drop_last());
        assert((n - 1) * md + cells.last().width <= n * m) by (nonlinear_arith)
            requires
                0 <= md <= m,
                cells.last().width <= m,
                n >= 1,
        ;
    }
}

/// The maximum width is never negative.
pub proof fn lemma_max_width_nonneg(cells: Seq<GridCell>)
    ensures
        spec_max_width(cells) >= 0,
    decreases cells.len(),
{
    if cells.len() > 0 {
        lemma_max_width_nonneg(cells.drop_last());
    }
}

/// Updating one entry changes the sum by the difference at that entry.
pub proof fn lemma_sum_update(s: Seq<usize>, i: int, v: usize)
    requires
        0 <= i < s.len(),
    ensures
        sum_usizes(s.update(i, v)) == sum_usizes(s) - s[i] + v,
    decreases s.len(),
{
    if i == s.len() - 1 {
        assert(s.update(i, v).drop_last() =~= s.drop_last());
    } else {
        assert(s.update(i, v).drop_last() =~= s.drop_last().update(i, v));
        lemma_sum_update(s.drop_last(), i, v);
    }
}

/// Every width in a cell collection is bounded by the collection's maximum.
pub proof fn lemma_width_le_max(cells: Seq<GridCell>, i: int)
    requires
        0 <= i < cells.len(),
    ensures
        cells[i].width <= spec_max_width(cells),
    decreases cells.len(),
{
    if i < cells.len() - 1 {
        lemma_width_le_max(cells.drop_last(), i);
    }
}

/// In a non-empty collection the maximum width is bounded by the sum.
pub proof fn lemma_max_le_sum(cells: Seq<GridCell>)
    requires
        cells.len() >= 1,
    ensures
        spec_max_width(cells) <= sum_widths(cells),
    decreases cells.len(),
{
    if cells.len() == 1 {
        lemma_sum_widths_nonneg(cells.drop_last());
    } else {
        lemma_max_le_sum(cells.drop_last());
        lemma_sum_widths_nonneg(cells.drop_last());
        assert(sum_widths(cells) == sum_widths(cells.drop_last()) + cells.last().width);
        assert(spec_max_width(cells.drop_last()) <= sum_widths(cells.drop_last()));
        if cells.last().width >= spec_max_width(cells.drop_last()) {
            assert(spec_max_width(cells) == cells.last().width);
        } else {
            assert(spec_max_width(cells) == spec_max_width(cells.drop_last()));
        }
    }
}

/// When every entry is bounded by `b`, the sum is bounded by `len * b`.
pub proof fn lemma_sum_entries_le_bound(s: Seq<usize>, b: int)
    requires
        forall|c: int| 0 <= c < s.len() ==> s[c] <= b,
        b >= 0,
    ensures
        sum_usizes(s) <= s.len() * b,
    decreases s.len(),
{
    if s.len() == 0 {
    } else {
        assert(forall|c: int|
            0 <= c < s.drop_last().len() ==> #[trigger] s.drop_last()[c] <= b);
        lemma_sum_entries_le_bound(s.drop_last(), b);
        assert((s.len() - 1) * b + b == s.len() as int * b) by (nonlinear_arith);
    }
}

/// Bounds on the ceiling quotient: multiplying it back covers the dividend,
/// and it never exceeds the dividend.
pub proof fn lemma_div_ceil_bounds(n: int, k: int)
    requires
        n >= 0,
        k >= 1,
    ensures
        spec_div_ceil(n, k) * k >= n,
        spec_div_ceil(n, k) <= n,
        spec_div_ceil(n, k) >= 0,
        n >= 1 ==> spec_div_ceil(n, k) >= 1,
        n == 0 ==> spec_div_ceil(n, k) == 0,
{
    vstd::arithmetic::div_mod::lemma_fundamental_div_mod(n, k);
    vstd::arithmetic::div_mod::lemma_mod_division_less_than_divisor(n, k);
    vstd::arithmetic::div_mod::lemma_div_pos_is_pos(n, k);
    let q = n / k;
    let r = n % k;
    let c = spec_div_ceil(n, k);
    assert(c == q + if r > 0 {
        1int
    } else {
        0int
    });
    assert(c * k >= n && c <= n && (n >= 1 ==> c >= 1) && (n == 0 ==> c == 0))
        by (nonlinear_arith)
        requires
            n == k * q + r,
            0 <= r < k,
            q >= 0,
            k >= 1,
            c == q + if r > 0 {
                1int
            } else {
                0int
            },
    ;
}

/// Both traversal directions assign every cell index to a real column.
pub proof fn lemma_column_of_in_range(cell_count: int, dir: Direction, k: int, i: int)
    requires
        k >= 1,
        0 <= i < cell_count,
    ensures
        0 <= spec_column_of(dir, i, k, spec_num_rows(cell_count, k)) < k,
{
    let rows = spec_num_rows(cell_count, k);
    match dir {
        Direction::LeftToRight => {
            vstd::arithmetic::div_mod::lemma_mod_division_less_than_divisor(i, k);
        },
        Direction::TopToBottom => {
            lemma_div_ceil_bounds(cell_count, k);
            assert(0 <= i / rows < k) by (nonlinear_arith)
                requires
                    rows >= 1,
                    0 <= i,
                    i < rows * k,
            ;
        },
    }
}

/// What the column-width fold guarantees after `m` cells: `k` entries, each
/// bounded by the collection's maximum width, summing to no more than the
/// widths of the cells assigned so far, and covering every assigned cell.
pub proof fn lemma_column_widths_upto_props(
    cells: Seq<GridCell>,
    dir: Direction,
    k: int,
    rows: int,
    m: int,
)
    requires
        k >= 1,
        rows == spec_num_rows(cells.len() as int, k),
        0 <= m <= cells.len(),
    ensures
        spec_column_widths_upto(cells, dir, k, rows, m).len() == k,
        sum_usizes(spec_column_widths_upto(cells, dir, k, rows, m)) <= sum_widths(
            cells.take(m),
        ),
        forall|c: int|
            0 <= c < k ==> #[trigger] spec_column_widths_upto(cells, dir, k, rows, m)[c]
                <= spec_max_width(cells),
        forall|i: int|
            0 <= i < m ==> cells[i].width <= spec_column_widths_upto(cells, dir, k, rows, m)[
                spec_column_of(dir, i, k, rows)
            ],
    decreases m,
{
    let result = spec_column_widths_upto(cells, dir, k, rows, m);
    if m == 0 {
        lemma_sum_zeros(k);
        assert(cells.take(0) =~= Seq::<GridCell>::empty());
    } else {
        lemma_column_widths_upto_props(cells, dir, k, rows, m - 1);
        let prev = spec_column_widths_upto(cells, dir, k, rows, m - 1);
        let c = spec_column_of(dir, m - 1, k, rows);
        let w = cells[m - 1].width;
        lemma_column_of_in_range(cells.len() as int, dir, k, m - 1);
        lemma_width_le_max(cells, m - 1);
        lemma_sum_widths_take_succ(cells, m - 1);
        if prev[c] < w {
            lemma_sum_update(prev, c, w);
        }
        assert forall|i: int| 0 <= i < m implies cells[i].width <= result[
            spec_column_of(dir, i, k, rows)
        ] by {
            let ci = spec_column_of(dir, i, k, rows);
            lemma_column_of_in_range(cells.len() as int, dir, k, i);
            if i < m - 1 {
                assert(cells[i].width <= prev[ci]);
            }
        }
    }
}

/// With at least as many columns as cells, each cell gets a column of its
/// own: entry `j` of the fold is exactly the width of cell `j`.
pub proof fn lemma_column_widths_upto_wide(
    cells: Seq<GridCell>,
    dir: Direction,
    k: int,
    rows: int,
    m: int,
)
    requires
        k >= cells.len(),
        k >= 1,
        rows == spec_num_rows(cells.len() as int, k),
        0 <= m <= cells.len(),
    ensures
        forall|j: int|
            0 <= j < k ==> #[trigger] spec_column_widths_upto(cells, dir, k, rows, m)[j]
                == if j < m {
                    cells[j].width as int
                } else {
                    0int
                },
    decreases m,
{
    let n = cells.len() as int;
    if m == 0 {
    } else {
        lemma_column_widths_upto_wide(cells, dir, k, rows, m - 1);
        lemma_column_widths_upto_props(cells, dir, k, rows, m - 1);
        let i = m - 1;
        let c = spec_column_of(dir, i, k, rows);
        assert(c == i) by {
            match dir {
                Direction::LeftToRight => {
                    vstd::arithmetic::div_mod::lemma_small_mod(i as nat, k as nat);
                },
                Direction::TopToBottom => {
                    assert(rows == 1) by {
                        lemma_div_ceil_bounds(n, k);
                        if n < k {
                            vstd::arithmetic::div_mod::lemma_basic_div(n, k);
                            vstd::arithmetic::div_mod::lemma_small_mod(n as nat, k as nat);
                        } else {
                            vstd::arithmetic::div_mod::lemma_div_by_self(k);
                            vstd::arithmetic::div_mod::lemma_mod_self_0(k);
                        }
                    }
                    vstd::arithmetic::div_mod::lemma_div_basics(i);
                },
            }
        }
    }
}

/// The sum of a sequence that holds the first `m` cell widths, padded on
/// the right with zeros, equals the sum of those `m` widths.
pub proof fn lemma_sum_padded(s: Seq<usize>, cells: Seq<GridCell>, m: int)
    requires
        0 <= m <= cells.len(),
        m <= s.len(),
        forall|j: int|
            0 <= j < s.len() ==> #[trigger] s[j] == if j < m {
                cells[j].width as int
            } else {
                0int
            },
    ensures
        sum_usizes(s) == sum_widths(cells.take(m)),
    decreases s.len(),
{
    if s.len() == 0 {
        assert(cells.take(0) =~= Seq::<GridCell>::empty());
    } else if s.len() - 1 >= m {
        assert(forall|j: int|
            0 <= j < s.drop_last().len() ==> #[trigger] s.drop_last()[j] == if j < m {
                cells[j].width as int
            } else {
                0int
            });
        lemma_sum_padded(s.drop_last(), cells, m);
    } else {
        lemma_sum_widths_take_succ(cells, m - 1);
        assert(forall|j: int|
            0 <= j < s.drop_last().len() ==> #[trigger] s.drop_last()[j] == if j < m - 1 {
                cells[j].width as int
            } else {
                0int
            });
        lemma_sum_padded(s.drop_last(), cells, m - 1);
    }
}

/// With as many columns as cells (or more), the total width of the fold is
/// at least the natural one-row width.
pub proof fn lemma_wide_total_at_least_natural(
    cells: Seq<GridCell>,
    dir: Direction,
    k: int,
    sep: int,
)
    requires
        cells.len() >= 1,
        k >= cells.len(),
        sep >= 0,
    ensures
        spec_total_width(spec_column_widths(cells, dir, k), sep) >= spec_natural_width(
            cells,
            sep,
        ),
{
    let n = cells.len() as int;
    let rows = spec_num_rows(n, k);
    let colw = spec_column_widths(cells, dir, k);
    lemma_column_widths_upto_props(cells, dir, k, rows, n);
    lemma_column_widths_upto_wide(cells, dir, k, rows, n);
    lemma_sum_padded(colw, cells, n);
    lemma_sum_widths_take_full(cells);
    vstd::arithmetic::mul::lemma_mul_inequality(n - 1, k - 1, sep);
}

/// The total width of the fold never exceeds the natural one-row width, as
/// long as there are no more columns than cells.
pub proof fn lemma_total_le_natural(cells: Seq<GridCell>, dir: Direction, k: int, sep: int)
    requires
        1 <= k <= cells.len(),
        sep >= 0,
    ensures
        spec_total_width(spec_column_widths(cells, dir, k), sep) <= spec_natural_width(
            cells,
            sep,
        ),
{
    let n = cells.len() as int;
    let rows = spec_num_rows(n, k);
    let colw = spec_column_widths(cells, dir, k);
    lemma_column_widths_upto_props(cells, dir, k, rows, n);
    lemma_sum_widths_take_full(cells);
    vstd::arithmetic::mul::lemma_mul_inequality(k - 1, n - 1, sep);
}

/// The total width of the fold is bounded by `k` columns of the maximum
/// width plus the separators between them.
pub proof fn lemma_total_le_k_max(cells: Seq<GridCell>, dir: Direction, k: int, sep: int)
    requires
        k >= 1,
        sep >= 0,
    ensures
        spec_total_width(spec_column_widths(cells, dir, k), sep) <= k * spec_max_width(cells)
            + (k - 1) * sep,
{
    let n = cells.len() as int;
    let rows = spec_num_rows(n, k);
    let colw = spec_column_widths(cells, dir, k);
    lemma_column_widths_upto_props(cells, dir, k, rows, n);
    if n == 0 {
        lemma_sum_zeros(k);
        assert(spec_max_width(cells) == 0);
        assert(k * spec_max_width(cells) == 0) by (nonlinear_arith)
            requires
                spec_max_width(cells) == 0,
        ;
    } else {
        lemma_width_le_max(cells, 0);
        lemma_sum_entries_le_bound(colw, spec_max_width(cells));
    }
}

} // verus!
