//! The grid itself: a borrowed cell collection with a separator and a
//! traversal direction, and the two ways of fitting it into a geometry —
//! an explicit column count, or a search for the best fit under a width
//! budget.

use vstd::prelude::*;

use crate::cell::GridCell;
use crate::display::Display;
use crate::layout::Dimentions;
use crate::layout::Direction;
use crate::layout::dims_for;
use crate::layout::lemma_column_of_in_range;
use crate::layout::lemma_column_widths_upto_props;
use crate::layout::lemma_div_ceil_bounds;
use crate::layout::lemma_max_le_sum;
use crate::layout::lemma_max_width_nonneg;
use crate::layout::lemma_sum_le_count_times_max;
use crate::layout::lemma_sum_widths_nonneg;
use crate::layout::lemma_sum_widths_take_le;
use crate::layout::lemma_sum_widths_take_succ;
use crate::layout::lemma_total_le_k_max;
use crate::layout::lemma_total_le_natural;
use crate::layout::lemma_wide_total_at_least_natural;
use crate::layout::spec_column_of;
use crate::layout::spec_column_widths;
use crate::layout::spec_column_widths_upto;
use crate::layout::spec_max_width;
use crate::layout::spec_natural_width;
use crate::layout::spec_num_rows;
use crate::layout::spec_total_width;
use crate::layout::spec_well_packed;
use crate::layout::sum_widths;
use crate::layout::usize_div_ceil;
use crate::width::display_width_of;
use crate::width::measure_display_width;

verus! {

/// The main struct used to format grid cells in a grid-like layout similar
/// to the columnar output of a directory listing.
#[derive(Debug)]
pub struct Grid<'cells> {
    /// The cells to lay out, in order; borrowed from the caller.
    pub cells: &'cells [GridCell],
    /// The text written between adjacent columns of a row.
    pub seperator: String,
    /// The display width of `seperator`.
    pub seperator_width: usize,
    /// The traversal order used to assign cells to columns.
    pub direction: Direction,
}

/// One step of the packing search, with enough fuel to reach the column
/// count where the total width is sure to exceed the budget: probes column
/// counts upward from `num_columns + 1`, keeps the last well-packed
/// candidate, and stops as soon as a candidate's total width exceeds
/// `display_width`.
pub open spec fn spec_search(
    cells: Seq<GridCell>,
    dir: Direction,
    sep: int,
    display_width: int,
    best: int,
    num_columns: int,
    fuel: nat,
) -> int
    decreases fuel,
{
    if fuel == 0 {
        best
    } else {
        let next = num_columns + 1;
        if spec_total_width(spec_column_widths(cells, dir, next), sep) > display_width {
            best
        } else if spec_well_packed(
            cells.len() as int,
            next,
            spec_num_rows(cells.len() as int, next),
            spec_num_rows(cells.len() as int, best),
        ) {
            spec_search(cells, dir, sep, display_width, next, next, (fuel - 1) as nat)
        } else {
            spec_search(cells, dir, sep, display_width, best, next, (fuel - 1) as nat)
        }
    }
}

/// The first column count probed by the width-fitting search: as many
/// columns of the widest cell plus a separator as the budget holds, and at
/// least one.
pub open spec fn spec_search_seed(cells: Seq<GridCell>, sep: int, display_width: int) -> int {
    let seed = display_width / (spec_max_width(cells) + sep);
    if seed < 1 {
        1int
    } else {
        seed
    }
}

/// The column count adopted by the width-fitting search.
pub open spec fn spec_fitted_columns(
    cells: Seq<GridCell>,
    dir: Direction,
    sep: int,
    display_width: int,
) -> int {
    let seed = spec_search_seed(cells, sep, display_width);
    let fuel = if cells.len() as int - seed >= 0 {
        (cells.len() as int - seed) as nat
    } else {
        0nat
    };
    spec_search(cells, dir, sep, display_width, seed, seed, fuel)
}

impl<'cells> Grid<'cells> {
    /// Creates a new grid over `cells`, measuring the separator's display
    /// width once.
    pub fn new(seperator: String, direction: Direction, cells: &'cells [GridCell]) -> (g: Grid<
        'cells,
    >)
        ensures
            g.cells@ == cells@,
            g.seperator@ == seperator@,
            g.seperator_width as nat == display_width_of(seperator@),
            g.direction == direction,
    {
        let seperator_width = measure_display_width(seperator.as_str());

        Grid { cells, seperator, seperator_width, direction }
    }

    /// How many cells the grid lays out.
    pub(crate) fn total_cell_count(&self) -> (n: usize)
        ensures
            n == self.cells@.len(),
    {
        self.cells.len()
    }

    /// Returns a displayable grid with the specified number of columns.
    pub fn fit_into_columns(&self, num_columns: usize) -> (d: Display<'_>)
        requires
            num_columns >= 1,
        ensures
            dims_for(d.dimentions, self.cells@, self.direction, num_columns as int),
            d.dimentions.column_widths@.len() == num_columns,
            d.grid.cells@ == self.cells@,
            d.grid.seperator@ == self.seperator@,
            d.grid.seperator_width == self.seperator_width,
            d.grid.direction == self.direction,
    {
        let dimentions = self.calculate_dimentions(num_columns);

        Display { dimentions, grid: self }
    }

    /// Returns a well packed displayable grid fitted within `display_width`.
    ///
    /// Returns `None` if one of the grid cells has a display width greater
    /// than or equal to `display_width`, since no column layout can host
    /// such a cell even alone. An empty cell collection always succeeds
    /// with one row and no columns; when every cell fits on a single row
    /// within the budget, that row is used without any search.
    pub fn fit_into_width(&self, display_width: usize) -> (r: Option<Display<'_>>)
        requires
            self.cells@.len() >= 1 ==> spec_natural_width(
                self.cells@,
                self.seperator_width as int,
            ) <= usize::MAX,
        ensures
            r is None <==> (self.cells@.len() >= 1 && spec_max_width(self.cells@)
                >= display_width),
            match r {
                Option::None => true,
                Option::Some(disp) => {
                    &&& disp.grid.cells@ == self.cells@
                    &&& disp.grid.seperator@ == self.seperator@
                    &&& disp.grid.seperator_width == self.seperator_width
                    &&& disp.grid.direction == self.direction
                    &&& if self.cells@.len() == 0 || spec_natural_width(
                        self.cells@,
                        self.seperator_width as int,
                    ) <= display_width {
                        disp.dimentions.num_rows == 1 && disp.dimentions.column_widths@
                            == Seq::new(self.cells@.len(), |c: int| 0usize)
                    } else {
                        dims_for(
                            disp.dimentions,
                            self.cells@,
                            self.direction,
                            spec_fitted_columns(
                                self.cells@,
                                self.direction,
                                self.seperator_width as int,
                                display_width as int,
                            ),
                        ) && disp.dimentions.column_widths@.len() >= 1 && spec_total_width(
                            disp.dimentions.column_widths@,
                            self.seperator_width as int,
                        ) <= display_width
                    }
                },
            },
    {
        let ghost cells = self.cells@;
        let ghost sepw = self.seperator_width as int;
        let total = self.total_cell_count();
        if total == 0 {
            return Some(Display { dimentions: Dimentions::one_row(0), grid: self });
        }

        let mut max_cell_width: usize = 0;
        let mut i: usize = 0;
        proof {
            assert(cells.take(0) =~= Seq::<GridCell>::empty());
        }
        while i < total
            invariant
                i <= total,
                total == cells.len(),
                cells == self.cells@,
                max_cell_width as int == spec_max_width(cells.take(i as int)),
            decreases total - i,
        {
            proof {
                assert(cells.take(i as int + 1).drop_last() =~= cells.take(i as int));
                assert(cells.take(i as int + 1).last() == cells[i as int]);
            }
            let w = self.cells[i].width;
            if w > max_cell_width {
                max_cell_width = w;
            }
            i = i + 1;
        }
        proof {
            assert(cells.take(total as int) =~= cells);
        }

        if max_cell_width >= display_width {
            None
        } else {
            proof {
                lemma_sum_widths_nonneg(cells);
                assert((total - 1) as int * sepw >= 0) by (nonlinear_arith)
                    requires
                        total >= 1,
                        sepw >= 0,
                ;
            }
            let mut sum: usize = 0;
            let mut j: usize = 0;
            proof {
                assert(cells.take(0) =~= Seq::<GridCell>::empty());
            }
            while j < total
                invariant
                    j <= total,
                    total == cells.len(),
                    total >= 1,
                    cells == self.cells@,
                    sepw == self.seperator_width as int,
                    sum as int == sum_widths(cells.take(j as int)),
                    spec_natural_width(cells, sepw) <= usize::MAX,
                    (total - 1) as int * sepw >= 0,
                decreases total - j,
            {
                proof {
                    lemma_sum_widths_take_succ(cells, j as int);
                    lemma_sum_widths_take_le(cells, j as int + 1);
                }
                sum = sum + self.cells[j].width;
                j = j + 1;
            }
            proof {
                assert(cells.take(total as int) =~= cells);
            }
            let total_width = sum + (total - 1) * self.seperator_width;

            if total_width <= display_width {
                Some(Display { dimentions: Dimentions::one_row(total), grid: self })
            } else {
                Some(self.internal_fit_into_width(max_cell_width, display_width))
            }
        }
    }

    /// The search behind [`Grid::fit_into_width`]: probes column counts
    /// upward from the seed, adopting each well packed candidate, until the
    /// total width exceeds the budget.
    fn internal_fit_into_width(&self, max_cell_width: usize, display_width: usize) -> (d: Display<
        '_,
    >)
        requires
            self.cells@.len() >= 1,
            max_cell_width as int == spec_max_width(self.cells@),
            max_cell_width < display_width,
            spec_natural_width(self.cells@, self.seperator_width as int) <= usize::MAX,
            spec_natural_width(self.cells@, self.seperator_width as int) > display_width,
        ensures
            dims_for(
                d.dimentions,
                self.cells@,
                self.direction,
                spec_fitted_columns(
                    self.cells@,
                    self.direction,
                    self.seperator_width as int,
                    display_width as int,
                ),
            ),
            d.dimentions.column_widths@.len() >= 1,
            spec_total_width(d.dimentions.column_widths@, self.seperator_width as int)
                <= display_width,
            d.grid.cells@ == self.cells@,
            d.grid.seperator@ == self.seperator@,
            d.grid.seperator_width == self.seperator_width,
            d.grid.direction == self.direction,
    {
        let ghost cells = self.cells@;
        let ghost dir = self.direction;
        let ghost sepw = self.seperator_width as int;
        let ghost n = cells.len() as int;
        let ghost natural = spec_natural_width(cells, sepw);
        let ghost maxw = spec_max_width(cells);
        let ghost dw = display_width as int;
        let ghost fitted = spec_fitted_columns(cells, dir, sepw, dw);

        proof {
            lemma_max_le_sum(cells);
            lemma_max_width_nonneg(cells);
            lemma_sum_le_count_times_max(cells);
            if n == 1 {
                assert(cells.drop_last().len() == 0);
                assert(sum_widths(cells) == maxw);
                assert((n - 1) * sepw == 0) by (nonlinear_arith)
                    requires
                        n == 1,
                ;
                assert(false);
            }
            assert((n - 1) * sepw >= sepw && (n - 1) * sepw >= 0) by (nonlinear_arith)
                requires
                    n >= 2,
                    sepw >= 0,
            ;
            if maxw + sepw == 0 {
                assert(n * maxw == 0) by (nonlinear_arith)
                    requires
                        maxw == 0,
                ;
                assert((n - 1) * sepw == 0) by (nonlinear_arith)
                    requires
                        sepw == 0,
                ;
                assert(false);
            }
        }

        let total_cell_count = self.total_cell_count();
        // choose the starting column count by asking how many columns of
        // the widest cell, each followed by a separator, the budget holds;
        // at least one column, so that a candidate geometry always exists
        let mut num_columns = display_width / (max_cell_width + self.seperator_width);
        if num_columns == 0 {
            num_columns = 1;
        }
        proof {
            assert(num_columns as int == spec_search_seed(cells, sepw, dw));
            let seed0 = dw / (maxw + sepw);
            vstd::arithmetic::div_mod::lemma_fundamental_div_mod(dw, maxw + sepw);
            vstd::arithmetic::div_mod::lemma_mod_division_less_than_divisor(dw, maxw + sepw);
            vstd::arithmetic::div_mod::lemma_div_pos_is_pos(dw, maxw + sepw);
            if seed0 >= n {
                assert(natural <= dw) by (nonlinear_arith)
                    requires
                        natural == sum_widths(cells) + (n - 1) * sepw,
                        sum_widths(cells) <= n * maxw,
                        n >= 1,
                        sepw >= 0,
                        maxw >= 0,
                        seed0 >= n,
                        dw == (maxw + sepw) * seed0 + dw % (maxw + sepw),
                        dw % (maxw + sepw) >= 0,
                ;
                assert(false);
            }
        }
        let ghost seed = num_columns as int;

        let mut dimentions = self.calculate_dimentions(num_columns);
        proof {
            lemma_column_widths_upto_props(cells, dir, seed, spec_num_rows(n, seed), n);
            let seed0 = dw / (maxw + sepw);
            if seed0 >= 1 {
                lemma_total_le_k_max(cells, dir, seed, sepw);
                assert(seed * maxw + (seed - 1) * sepw <= dw) by (nonlinear_arith)
                    requires
                        seed == seed0,
                        sepw >= 0,
                        maxw >= 0,
                        seed >= 1,
                        dw == (maxw + sepw) * seed0 + dw % (maxw + sepw),
                        dw % (maxw + sepw) >= 0,
                ;
            } else {
                lemma_total_le_k_max(cells, dir, 1, sepw);
                assert(1int * maxw + (1int - 1) * sepw == maxw) by (nonlinear_arith);
            }
        }

        let ghost mut best = seed;
        proof {
            assert(spec_search(cells, dir, sepw, dw, best, num_columns as int, (n
                - num_columns as int) as nat) == fitted);
        }

        // increase the column count until the total width leaves the
        // budget, keeping the last well packed candidate
        loop
            invariant_except_break
                cells == self.cells@,
                dir == self.direction,
                sepw == self.seperator_width as int,
                n == cells.len() as int,
                n >= 2,
                total_cell_count == cells.len(),
                natural == spec_natural_width(cells, sepw),
                natural <= usize::MAX,
                natural > dw,
                maxw == spec_max_width(cells),
                dw == display_width as int,
                fitted == spec_fitted_columns(cells, dir, sepw, dw),
                1 <= best <= num_columns as int,
                (num_columns as int) < n,
                dims_for(dimentions, cells, dir, best),
                spec_total_width(spec_column_widths(cells, dir, best), sepw) <= dw,
                spec_search(cells, dir, sepw, dw, best, num_columns as int, (n
                    - num_columns as int) as nat) == fitted,
            ensures
                1 <= fitted,
                dims_for(dimentions, cells, dir, fitted),
                spec_total_width(spec_column_widths(cells, dir, fitted), sepw) <= dw,
            decreases n - num_columns as int,
        {
            let ghost k_old = num_columns as int;
            let ghost best_old = best;
            num_columns = num_columns + 1;
            let ghost k_new = num_columns as int;
            let new_dimentions = self.calculate_dimentions(num_columns);
            proof {
                lemma_total_le_natural(cells, dir, k_new, sepw);
                lemma_column_widths_upto_props(cells, dir, k_new, spec_num_rows(n, k_new), n);
            }

            if new_dimentions.total_width(self.seperator_width) > display_width {
                proof {
                    assert(spec_search(cells, dir, sepw, dw, best_old, k_old, (n
                        - k_old) as nat) == best_old);
                }
                break;
            } else if new_dimentions.is_well_packed(total_cell_count, dimentions.num_rows) {
                dimentions = new_dimentions;
                proof {
                    best = k_new;
                    assert(spec_search(cells, dir, sepw, dw, best_old, k_old, (n
                        - k_old) as nat) == spec_search(cells, dir, sepw, dw, k_new, k_new, (n
                        - k_new) as nat));
                    if k_new >= n {
                        lemma_wide_total_at_least_natural(cells, dir, k_new, sepw);
                        assert(false);
                    }
                }
            } else {
                proof {
                    assert(spec_search(cells, dir, sepw, dw, best_old, k_old, (n
                        - k_old) as nat) == spec_search(cells, dir, sepw, dw, best_old, k_new, (n
                        - k_new) as nat));
                    if k_new >= n {
                        lemma_wide_total_at_least_natural(cells, dir, k_new, sepw);
                        assert(false);
                    }
                }
            }
        }
        proof {
            lemma_column_widths_upto_props(cells, dir, fitted, spec_num_rows(n, fitted), n);
        }

        Display { dimentions, grid: self }
    }

    /// Computes the geometry for a candidate column count: the ceiling row
    /// count, and each column's width as the maximum over the cells the
    /// traversal direction maps to it.
    fn calculate_dimentions(&self, num_columns: usize) -> (d: Dimentions)
        requires
            num_columns >= 1,
        ensures
            dims_for(d, self.cells@, self.direction, num_columns as int),
            d.column_widths@.len() == num_columns,
    {
        let ghost cells = self.cells@;
        let ghost k = num_columns as int;
        let total = self.total_cell_count();
        let num_rows = usize_div_ceil(total, num_columns);
        let ghost rows = num_rows as int;

        let mut column_widths: Vec<usize> = Vec::new();
        let mut c: usize = 0;
        while c < num_columns
            invariant
                c <= num_columns,
                column_widths@ == Seq::new(c as nat, |j: int| 0usize),
            decreases num_columns - c,
        {
            column_widths.push(0);
            c = c + 1;
            proof {
                assert(column_widths@ =~= Seq::new(c as nat, |j: int| 0usize));
            }
        }
        proof {
            assert(column_widths@ =~= spec_column_widths_upto(cells, self.direction, k, rows, 0));
        }

        let mut cell_index: usize = 0;
        while cell_index < total
            invariant
                cell_index <= total,
                total == cells.len(),
                k == num_columns as int,
                num_columns >= 1,
                rows == num_rows as int,
                rows == spec_num_rows(cells.len() as int, k),
                cells == self.cells@,
                column_widths@ == spec_column_widths_upto(
                    cells,
                    self.direction,
                    k,
                    rows,
                    cell_index as int,
                ),
                column_widths@.len() == num_columns,
            decreases total - cell_index,
        {
            proof {
                lemma_column_of_in_range(cells.len() as int, self.direction, k, cell_index as int);
                if cells.len() >= 1 {
                    lemma_div_ceil_bounds(cells.len() as int, k);
                }
            }
            let column_index = match self.direction {
                Direction::LeftToRight => cell_index % num_columns,
                Direction::TopToBottom => cell_index / num_rows,
            };
            proof {
                assert(column_index as int == spec_column_of(
                    self.direction,
                    cell_index as int,
                    k,
                    rows,
                ));
            }

            let w = self.cells[cell_index].width;
            if column_widths[column_index] < w {
                column_widths.set(column_index, w);
            }
            cell_index = cell_index + 1;
        }

        Dimentions { num_rows, column_widths }
    }
}

} // verus!
