use vstd::prelude::*;
use crate::cell::{Cell, blank_cell, default_cell};
use crate::color::Color;

verus! {

/// A row of `n` blank cells with background `bg`.
pub open spec fn blank_row(n: int, bg: Color) -> Seq<Cell> {
    Seq::new(n as nat, |_c: int| blank_cell(bg))
}

/// `rows` rows of `cols` cells each, all equal to `cell`.
pub open spec fn filled(cols: int, rows: int, cell: Cell) -> Seq<Seq<Cell>> {
    Seq::new(rows as nat, |_r: int| Seq::new(cols as nat, |_c: int| cell))
}

/// Whether `g` has `rows` rows of `cols` cells each.
pub open spec fn shaped(g: Seq<Seq<Cell>>, cols: int, rows: int) -> bool {
    &&& g.len() == rows
    &&& forall|r: int| 0 <= r < g.len() ==> #[trigger] g[r].len() == cols
}

/// Rows `top..=bottom` moved up by `n`; the rows uncovered at the bottom of
/// the region are blank with background `bg`.
pub open spec fn scrolled_up(g: Seq<Seq<Cell>>, top: int, bottom: int, n: int, cols: int, bg: Color) -> Seq<Seq<Cell>> {
    Seq::new(
        g.len(),
        |r: int|
            if r < top || r > bottom {
                g[r]
            } else if r + n <= bottom && r + n < g.len() {
                g[r + n]
            } else {
                blank_row(cols, bg)
            },
    )
}

/// Rows `top..=bottom` moved down by `n`; the rows uncovered at the top of the
/// region are blank with background `bg`.
pub open spec fn scrolled_down(g: Seq<Seq<Cell>>, top: int, bottom: int, n: int, cols: int, bg: Color) -> Seq<Seq<Cell>> {
    Seq::new(
        g.len(),
        |r: int|
            if r < top || r > bottom {
                g[r]
            } else if r - n >= top {
                g[r - n]
            } else {
                blank_row(cols, bg)
            },
    )
}

/// The cells of `row` in `from..to` made blank with background `bg`.
pub open spec fn blanked(row: Seq<Cell>, from: int, to: int, bg: Color) -> Seq<Cell> {
    Seq::new(row.len(), |c: int| if from <= c < to { blank_cell(bg) } else { row[c] })
}

/// `n` blank cells inserted at `col`; the cells pushed past the end are lost.
pub open spec fn cells_inserted(row: Seq<Cell>, col: int, n: int, bg: Color) -> Seq<Cell> {
    Seq::new(
        row.len(),
        |c: int|
            if c < col {
                row[c]
            } else if c < col + n {
                blank_cell(bg)
            } else {
                row[c - n]
            },
    )
}

/// `n` cells deleted at `col`; the row is filled up with blank cells.
pub open spec fn cells_deleted(row: Seq<Cell>, col: int, n: int, bg: Color) -> Seq<Cell> {
    Seq::new(
        row.len(),
        |c: int|
            if c < col {
                row[c]
            } else if c + n < row.len() {
                row[c + n]
            } else {
                blank_cell(bg)
            },
    )
}

/// `g` with row `row` replaced by `new_row`, when that row exists.
pub open spec fn with_row(g: Seq<Seq<Cell>>, row: int, new_row: Seq<Cell>) -> Seq<Seq<Cell>> {
    if 0 <= row < g.len() {
        g.update(row, new_row)
    } else {
        g
    }
}

/// Everything from `(col, row)` to the end of the grid blank.
pub open spec fn erased_below(g: Seq<Seq<Cell>>, col: int, row: int, cols: int, bg: Color) -> Seq<Seq<Cell>> {
    Seq::new(
        g.len(),
        |r: int|
            if r < row {
                g[r]
            } else if r == row {
                blanked(g[r], col, cols, bg)
            } else {
                blank_row(cols, bg)
            },
    )
}

/// Everything from the start of the grid to `(col, row)` inclusive blank.
pub open spec fn erased_above(g: Seq<Seq<Cell>>, col: int, row: int, cols: int, bg: Color) -> Seq<Seq<Cell>> {
    Seq::new(
        g.len(),
        |r: int|
            if r < row {
                blank_row(cols, bg)
            } else if r == row {
                blanked(g[r], 0, col + 1, bg)
            } else {
                g[r]
            },
    )
}

/// `g` cut or padded to `rows` x `cols`; new cells are default cells.
pub open spec fn resized(g: Seq<Seq<Cell>>, cols: int, rows: int) -> Seq<Seq<Cell>> {
    Seq::new(
        rows as nat,
        |r: int|
            Seq::new(
                cols as nat,
                |c: int|
                    if r < g.len() && c < g[r].len() {
                        g[r][c]
                    } else {
                        default_cell()
                    },
            ),
    )
}

/// A rectangular grid of cells, stored row by row.
pub struct Grid {
    cells: Vec<Vec<Cell>>,
    cols: usize,
    rows: usize,
}

impl View for Grid {
    type V = Seq<Seq<Cell>>;

    closed spec fn view(&self) -> Seq<Seq<Cell>> {
        self.cells@.map_values(|r: Vec<Cell>| r@)
    }
}

/// A row of `n` copies of `cell`.
fn row_of(n: usize, cell: Cell) -> (r: Vec<Cell>)
    ensures
        r@ == Seq::new(n as nat, |_c: int| cell),
{
    let mut v: Vec<Cell> = Vec::new();
    let mut i: usize = 0;
    while i < n
        invariant
            i <= n,
            v@ == Seq::new(i as nat, |_c: int| cell),
        decreases n - i,
    {
        v.push(cell);
        i += 1;
        assert(v@ =~= Seq::new(i as nat, |_c: int| cell));
    }
    v
}

/// A copy of `row`.
fn copy_row(row: &Vec<Cell>) -> (r: Vec<Cell>)
    ensures
        r@ == row@,
{
    let mut v: Vec<Cell> = Vec::new();
    let mut i: usize = 0;
    while i < row.len()
        invariant
            i <= row.len(),
            v@ == row@.subrange(0, i as int),
        decreases row.len() - i,
    {
        v.push(row[i]);
        i += 1;
        assert(v@ =~= row@.subrange(0, i as int));
    }
    assert(v@ =~= row@);
    v
}

impl Grid {
    /// Whether the grid holds `rows()` rows of `cols()` cells.
    pub closed spec fn wf(&self) -> bool {
        &&& self.cells@.len() == self.rows
        &&& forall|r: int| 0 <= r < self.cells@.len() ==> #[trigger] self.cells@[r]@.len() == self.cols
    }

    /// The number of columns.
    pub closed spec fn cols_view(&self) -> nat {
        self.cols as nat
    }

    /// The number of rows.
    pub closed spec fn rows_view(&self) -> nat {
        self.rows as nat
    }

    proof fn lemma_shape(&self)
        requires
            self.wf(),
        ensures
            shaped(self@, self.cols as int, self.rows as int),
    {
        assert forall|r: int| 0 <= r < self@.len() implies #[trigger] self@[r].len() == self.cols by {
            assert(self@[r] == self.cells@[r]@);
        }
    }

    /// The shape facts that callers use.
    pub proof fn lemma_wf(&self)
        requires
            self.wf(),
        ensures
            shaped(self@, self.cols_view() as int, self.rows_view() as int),
    {
        self.lemma_shape();
    }

    /// A grid of `rows` x `cols` default cells.
    pub fn new(cols: usize, rows: usize) -> (g: Grid)
        ensures
            g.wf(),
            g.cols_view() == cols,
            g.rows_view() == rows,
            g@ == filled(cols as int, rows as int, default_cell()),
    {
        let mut cells: Vec<Vec<Cell>> = Vec::new();
        let mut r: usize = 0;
        while r < rows
            invariant
                r <= rows,
                cells@.len() == r,
                forall|i: int| 0 <= i < r ==> #[trigger] cells@[i]@ == Seq::new(cols as nat, |_c: int| default_cell()),
            decreases rows - r,
        {
            let row = row_of(cols, Cell::blank());
            cells.push(row);
            r += 1;
        }
        let g = Grid { cells, cols, rows };
        assert(g@ =~= filled(cols as int, rows as int, default_cell()));
        g
    }

    /// The number of columns.
    pub fn cols(&self) -> (r: usize)
        ensures
            r == self.cols_view(),
    {
        self.cols
    }

    /// The number of rows.
    pub fn rows(&self) -> (r: usize)
        ensures
            r == self.rows_view(),
    {
        self.rows
    }

    /// The cell at `(col, row)`.
    pub fn cell(&self, col: usize, row: usize) -> (r: &Cell)
        requires
            self.wf(),
            col < self.cols_view(),
            row < self.rows_view(),
        ensures
            *r == self@[row as int][col as int],
    {
        &self.cells[row][col]
    }

    /// Replace the cell at `(col, row)`.
    pub fn set_cell(&mut self, col: usize, row: usize, cell: Cell)
        requires
            old(self).wf(),
            col < old(self).cols_view(),
            row < old(self).rows_view(),
        ensures
            final(self).wf(),
            final(self).cols_view() == old(self).cols_view(),
            final(self).rows_view() == old(self).rows_view(),
            final(self)@ == old(self)@.update(row as int, old(self)@[row as int].update(col as int, cell)),
    {
        let mut r = copy_row(&self.cells[row]);
        r.set(col, cell);
        self.cells.set(row, r);
        assert(self@ =~= old(self)@.update(row as int, old(self)@[row as int].update(col as int, cell)));
    }

    /// A copy of row `row`.
    pub fn row_cells(&self, row: usize) -> (r: Vec<Cell>)
        requires
            self.wf(),
            row < self.rows_view(),
        ensures
            r@ == self@[row as int],
    {
        copy_row(&self.cells[row])
    }

    /// Replace row `row` by `new_row`, which has the grid's width.
    pub fn put_row(&mut self, row: usize, new_row: Vec<Cell>)
        requires
            old(self).wf(),
            row < old(self).rows_view(),
            new_row@.len() == old(self).cols_view(),
        ensures
            final(self).wf(),
            final(self).cols_view() == old(self).cols_view(),
            final(self).rows_view() == old(self).rows_view(),
            final(self)@ == old(self)@.update(row as int, new_row@),
    {
        let ghost nr = new_row@;
        self.cells.set(row, new_row);
        assert(self@ =~= old(self)@.update(row as int, nr));
    }

    /// Every cell reset to a default cell.
    pub fn clear(&mut self)
        requires
            old(self).wf(),
        ensures
            final(self).wf(),
            final(self).cols_view() == old(self).cols_view(),
            final(self).rows_view() == old(self).rows_view(),
            final(self)@ == filled(old(self).cols_view() as int, old(self).rows_view() as int, default_cell()),
    {
        *self = Grid::new(self.cols, self.rows);
    }

    /// Every cell made blank with background `bg`.
    pub fn clear_with_bg(&mut self, bg: Color)
        requires
            old(self).wf(),
        ensures
            final(self).wf(),
            final(self).cols_view() == old(self).cols_view(),
            final(self).rows_view() == old(self).rows_view(),
            final(self)@ == filled(old(self).cols_view() as int, old(self).rows_view() as int, blank_cell(bg)),
    {
        let cols = self.cols;
        let rows = self.rows;
        let mut cells: Vec<Vec<Cell>> = Vec::new();
        let mut r: usize = 0;
        while r < rows
            invariant
                r <= rows,
                cells@.len() == r,
                forall|i: int| 0 <= i < r ==> #[trigger] cells@[i]@ == Seq::new(cols as nat, |_c: int| blank_cell(bg)),
            decreases rows - r,
        {
            let row = row_of(cols, Cell::blank_with_bg(bg));
            cells.push(row);
            r += 1;
        }
        self.cells = cells;
        assert(self@ =~= filled(cols as int, rows as int, blank_cell(bg)));
    }

    /// Blank the cells of row `row` from `from` (inclusive) to `to`
    /// (exclusive); nothing happens when the row does not exist.
    fn blank_span(&mut self, row: usize, from: usize, to: usize, bg: Color)
        requires
            old(self).wf(),
        ensures
            final(self).wf(),
            final(self).cols == old(self).cols,
            final(self).rows == old(self).rows,
            final(self)@ == if row < old(self).rows {
                old(self)@.update(row as int, blanked(old(self)@[row as int], from as int, to as int, bg))
            } else {
                old(self)@
            },
    {
        if row >= self.rows {
            return;
        }
        proof {
            self.lemma_shape();
        }
        let old_row = &self.cells[row];
        let n = old_row.len();
        let mut v: Vec<Cell> = Vec::new();
        let mut c: usize = 0;
        while c < n
            invariant
                c <= n,
                n == old_row@.len(),
                v@.len() == c,
                forall|k: int| 0 <= k < c ==> #[trigger] v@[k] == (if from <= k < to { blank_cell(bg) } else { old_row@[k] }),
            decreases n - c,
        {
            if from <= c && c < to {
                v.push(Cell::blank_with_bg(bg));
            } else {
                v.push(old_row[c]);
            }
            c += 1;
        }
        assert(v@ =~= blanked(old(self)@[row as int], from as int, to as int, bg));
        self.put_row(row, v);
    }

    /// Blank row `row` from `col` to its end.
    pub fn clear_to_eol_with_bg(&mut self, col: usize, row: usize, bg: Color)
        requires
            old(self).wf(),
        ensures
            final(self).wf(),
            final(self).cols_view() == old(self).cols_view(),
            final(self).rows_view() == old(self).rows_view(),
            final(self)@ == with_row(old(self)@, row as int, blanked(old(self)@[row as int], col as int, old(self).cols_view() as int, bg)),
    {
        let cols = self.cols;
        self.blank_span(row, col, cols, bg);
    }

    /// Blank row `row` from its start to `col` inclusive.
    pub fn clear_from_bol_with_bg(&mut self, col: usize, row: usize, bg: Color)
        requires
            old(self).wf(),
        ensures
            final(self).wf(),
            final(self).cols_view() == old(self).cols_view(),
            final(self).rows_view() == old(self).rows_view(),
            final(self)@ == with_row(old(self)@, row as int, blanked(old(self)@[row as int], 0, col + 1, bg)),
    {
        if col == usize::MAX {
            let cols = self.cols;
            self.blank_span(row, 0, cols, bg);
            proof {
                if row < self.rows {
                    self.lemma_shape();
                    assert(blanked(old(self)@[row as int], 0, self.cols as int, bg) =~= blanked(
                        old(self)@[row as int],
                        0,
                        col + 1,
                        bg,
                    ));
                }
            }
        } else {
            self.blank_span(row, 0, col + 1, bg);
        }
    }

    /// Blank all of row `row`.
    pub fn clear_row_with_bg(&mut self, row: usize, bg: Color)
        requires
            old(self).wf(),
        ensures
            final(self).wf(),
            final(self).cols_view() == old(self).cols_view(),
            final(self).rows_view() == old(self).rows_view(),
            final(self)@ == with_row(old(self)@, row as int, blank_row(old(self).cols_view() as int, bg)),
    {
        let cols = self.cols;
        proof {
            self.lemma_shape();
        }
        self.blank_span(row, 0, cols, bg);
        proof {
            if row < self.rows {
                assert(blanked(old(self)@[row as int], 0, cols as int, bg) =~= blank_row(cols as int, bg));
            }
        }
    }

    /// Build the grid whose row `r` is `pick(r)` for each `r`, where `pick`
    /// takes existing rows or blank rows.
    fn rebuild(&mut self, top: usize, bottom: usize, n: usize, bg: Color, up: bool)
        requires
            old(self).wf(),
        ensures
            final(self).wf(),
            final(self).cols == old(self).cols,
            final(self).rows == old(self).rows,
            up ==> final(self)@ == scrolled_up(old(self)@, top as int, bottom as int, n as int, old(self).cols as int, bg),
            !up ==> final(self)@ == scrolled_down(old(self)@, top as int, bottom as int, n as int, old(self).cols as int, bg),
    {
        proof {
            self.lemma_shape();
        }
        let cols = self.cols;
        let rows = self.rows;
        let ghost g = old(self)@;
        let ghost target = if up {
            scrolled_up(g, top as int, bottom as int, n as int, cols as int, bg)
        } else {
            scrolled_down(g, top as int, bottom as int, n as int, cols as int, bg)
        };
        let mut cells: Vec<Vec<Cell>> = Vec::new();
        let mut r: usize = 0;
        while r < rows
            invariant
                r <= rows,
                rows == self.rows,
                cols == self.cols,
                self@ == g,
                self.wf(),
                shaped(g, cols as int, rows as int),
                target.len() == rows,
                target == (if up {
                    scrolled_up(g, top as int, bottom as int, n as int, cols as int, bg)
                } else {
                    scrolled_down(g, top as int, bottom as int, n as int, cols as int, bg)
                }),
                cells@.len() == r,
                forall|i: int| 0 <= i < r ==> #[trigger] cells@[i]@ == target[i],
            decreases rows - r,
        {
            let row: Vec<Cell>;
            if r < top || r > bottom {
                row = copy_row(&self.cells[r]);
            } else if up {
                if n <= bottom - r && n < rows - r {
                    row = copy_row(&self.cells[r + n]);
                } else {
                    row = row_of(cols, Cell::blank_with_bg(bg));
                    assert(row@ =~= blank_row(cols as int, bg));
                }
            } else {
                if r - top >= n {
                    row = copy_row(&self.cells[r - n]);
                } else {
                    row = row_of(cols, Cell::blank_with_bg(bg));
                    assert(row@ =~= blank_row(cols as int, bg));
                }
            }
            assert(row@ == target[r as int]);
            cells.push(row);
            r += 1;
        }
        self.cells = cells;
        assert forall|i: int| 0 <= i < self.cells@.len() implies #[trigger] self.cells@[i]@.len() == self.cols by {
            assert(self.cells@[i]@ == target[i]);
        }
        assert(self@ =~= target);
    }

    /// Move rows `top..=bottom` up by `n`, blanking the rows uncovered at the
    /// bottom of the region.
    pub fn scroll_up_with_bg(&mut self, top: usize, bottom: usize, n: usize, bg: Color)
        requires
            old(self).wf(),
        ensures
            final(self).wf(),
            final(self).cols_view() == old(self).cols_view(),
            final(self).rows_view() == old(self).rows_view(),
            final(self)@ == scrolled_up(old(self)@, top as int, bottom as int, n as int, old(self).cols_view() as int, bg),
    {
        self.rebuild(top, bottom, n, bg, true);
    }

    /// Move rows `top..=bottom` down by `n`, blanking the rows uncovered at
    /// the top of the region.
    pub fn scroll_down_with_bg(&mut self, top: usize, bottom: usize, n: usize, bg: Color)
        requires
            old(self).wf(),
        ensures
            final(self).wf(),
            final(self).cols_view() == old(self).cols_view(),
            final(self).rows_view() == old(self).rows_view(),
            final(self)@ == scrolled_down(old(self)@, top as int, bottom as int, n as int, old(self).cols_view() as int, bg),
    {
        self.rebuild(top, bottom, n, bg, false);
    }

    /// Insert `n` blank lines at `row`, pushing the lines below down within
    /// the region that ends at `bottom`.
    pub fn insert_lines_with_bg(&mut self, row: usize, n: usize, bottom: usize, bg: Color)
        requires
            old(self).wf(),
        ensures
            final(self).wf(),
            final(self).cols_view() == old(self).cols_view(),
            final(self).rows_view() == old(self).rows_view(),
            final(self)@ == scrolled_down(old(self)@, row as int, bottom as int, n as int, old(self).cols_view() as int, bg),
    {
        self.rebuild(row, bottom, n, bg, false);
    }

    /// Delete `n` lines at `row`, pulling the lines below up within the
    /// region that ends at `bottom`.
    pub fn delete_lines_with_bg(&mut self, row: usize, n: usize, bottom: usize, bg: Color)
        requires
            old(self).wf(),
        ensures
            final(self).wf(),
            final(self).cols_view() == old(self).cols_view(),
            final(self).rows_view() == old(self).rows_view(),
            final(self)@ == scrolled_up(old(self)@, row as int, bottom as int, n as int, old(self).cols_view() as int, bg),
    {
        self.rebuild(row, bottom, n, bg, true);
    }

    /// Blank everything from `(col, row)` to the end of the grid.
    pub fn erase_below_with_bg(&mut self, col: usize, row: usize, bg: Color)
        requires
            old(self).wf(),
        ensures
            final(self).wf(),
            final(self).cols_view() == old(self).cols_view(),
            final(self).rows_view() == old(self).rows_view(),
            final(self)@ == erased_below(old(self)@, col as int, row as int, old(self).cols_view() as int, bg),
    {
        proof {
            self.lemma_shape();
        }
        let ghost g = old(self)@;
        let cols = self.cols;
        let rows = self.rows;
        let mut r: usize = row;
        if row < rows {
            self.blank_span(row, col, cols, bg);
            r = row + 1;
        }
        while r < rows
            invariant
                self.wf(),
                self.cols == cols,
                self.rows == rows,
                shaped(g, cols as int, rows as int),
                row <= r,
                row < r || rows <= row,
                r <= rows || rows <= row,
                forall|i: int|
                    0 <= i < rows ==> #[trigger] self@[i] == (if i < row {
                        g[i]
                    } else if i == row {
                        blanked(g[i], col as int, cols as int, bg)
                    } else if i < r {
                        blank_row(cols as int, bg)
                    } else {
                        g[i]
                    }),
            decreases rows - r,
        {
            let ghost before = self@;
            let row_v = row_of(cols, Cell::blank_with_bg(bg));
            assert(row_v@ =~= blank_row(cols as int, bg));
            self.put_row(r, row_v);
            assert(self@ == before.update(r as int, blank_row(cols as int, bg)));
            r += 1;
            assert forall|i: int| 0 <= i < rows implies #[trigger] self@[i] == (if i < row {
                g[i]
            } else if i == row {
                blanked(g[i], col as int, cols as int, bg)
            } else if i < r {
                blank_row(cols as int, bg)
            } else {
                g[i]
            }) by {
                if i != r - 1 {
                    assert(self@[i] == before[i]);
                }
            }
        }
        assert(self@ =~= erased_below(g, col as int, row as int, cols as int, bg));
    }

    /// Blank everything from the start of the grid to `(col, row)` inclusive.
    pub fn erase_above_with_bg(&mut self, col: usize, row: usize, bg: Color)
        requires
            old(self).wf(),
        ensures
            final(self).wf(),
            final(self).cols_view() == old(self).cols_view(),
            final(self).rows_view() == old(self).rows_view(),
            final(self)@ == erased_above(old(self)@, col as int, row as int, old(self).cols_view() as int, bg),
    {
        proof {
            self.lemma_shape();
        }
        let ghost g = old(self)@;
        let cols = self.cols;
        let rows = self.rows;
        let mut r: usize = 0;
        while r < row && r < rows
            invariant
                self.wf(),
                self.cols == cols,
                self.rows == rows,
                shaped(g, cols as int, rows as int),
                r <= rows,
                r <= row,
                forall|i: int|
                    0 <= i < rows ==> #[trigger] self@[i] == (if i < r {
                        blank_row(cols as int, bg)
                    } else {
                        g[i]
                    }),
            decreases rows - r,
        {
            let row_v = row_of(cols, Cell::blank_with_bg(bg));
            assert(row_v@ =~= blank_row(cols as int, bg));
            self.put_row(r, row_v);
            r += 1;
        }
        self.clear_from_bol_with_bg(col, row, bg);
        assert(self@ =~= erased_above(g, col as int, row as int, cols as int, bg));
    }

    /// Insert `n` blank cells at `(col, row)`, pushing the rest of the row
    /// right; cells pushed past the end are lost.
    pub fn insert_cells_with_bg(&mut self, col: usize, row: usize, n: usize, bg: Color)
        requires
            old(self).wf(),
        ensures
            final(self).wf(),
            final(self).cols_view() == old(self).cols_view(),
            final(self).rows_view() == old(self).rows_view(),
            final(self)@ == with_row(old(self)@, row as int, cells_inserted(old(self)@[row as int], col as int, n as int, bg)),
    {
        if row >= self.rows {
            return;
        }
        proof {
            self.lemma_shape();
        }
        let old_row = &self.cells[row];
        let len = old_row.len();
        let mut v: Vec<Cell> = Vec::new();
        let mut c: usize = 0;
        while c < len
            invariant
                c <= len,
                len == old_row@.len(),
                v@.len() == c,
                forall|k: int|
                    0 <= k < c ==> #[trigger] v@[k] == (if k < col {
                        old_row@[k]
                    } else if k < col + n {
                        blank_cell(bg)
                    } else {
                        old_row@[k - n]
                    }),
            decreases len - c,
        {
            if c < col {
                v.push(old_row[c]);
            } else if c - col < n {
                v.push(Cell::blank_with_bg(bg));
            } else {
                v.push(old_row[c - n]);
            }
            c += 1;
        }
        assert(v@ =~= cells_inserted(old(self)@[row as int], col as int, n as int, bg));
        self.put_row(row, v);
    }

    /// Delete `n` cells at `(col, row)`, pulling the rest of the row left and
    /// filling the end with blank cells.
    pub fn delete_cells_with_bg(&mut self, col: usize, row: usize, n: usize, bg: Color)
        requires
            old(self).wf(),
        ensures
            final(self).wf(),
            final(self).cols_view() == old(self).cols_view(),
            final(self).rows_view() == old(self).rows_view(),
            final(self)@ == with_row(old(self)@, row as int, cells_deleted(old(self)@[row as int], col as int, n as int, bg)),
    {
        if row >= self.rows {
            return;
        }
        proof {
            self.lemma_shape();
        }
        let old_row = &self.cells[row];
        let len = old_row.len();
        let mut v: Vec<Cell> = Vec::new();
        let mut c: usize = 0;
        while c < len
            invariant
                c <= len,
                len == old_row@.len(),
                v@.len() == c,
                forall|k: int|
                    0 <= k < c ==> #[trigger] v@[k] == (if k < col {
                        old_row@[k]
                    } else if k + n < len {
                        old_row@[k + n]
                    } else {
                        blank_cell(bg)
                    }),
            decreases len - c,
        {
            if c < col {
                v.push(old_row[c]);
            } else if n < len - c {
                v.push(old_row[c + n]);
            } else {
                v.push(Cell::blank_with_bg(bg));
            }
            c += 1;
        }
        assert(v@ =~= cells_deleted(old(self)@[row as int], col as int, n as int, bg));
        self.put_row(row, v);
    }

    /// Change the grid to `rows` x `cols`, keeping the cells that fit and
    /// filling new space with default cells.
    pub fn resize(&mut self, cols: usize, rows: usize)
        requires
            old(self).wf(),
        ensures
            final(self).wf(),
            final(self).cols_view() == cols,
            final(self).rows_view() == rows,
            final(self)@ == resized(old(self)@, cols as int, rows as int),
    {
        proof {
            self.lemma_shape();
        }
        let ghost g = old(self)@;
        let ghost target = resized(g, cols as int, rows as int);
        let mut cells: Vec<Vec<Cell>> = Vec::new();
        let mut r: usize = 0;
        while r < rows
            invariant
                r <= rows,
                self@ == g,
                self.wf(),
                shaped(g, self.cols as int, self.rows as int),
                target == resized(g, cols as int, rows as int),
                cells@.len() == r,
                forall|i: int| 0 <= i < r ==> #[trigger] cells@[i]@ == target[i],
            decreases rows - r,
        {
            let mut v: Vec<Cell> = Vec::new();
            let mut c: usize = 0;
            while c < cols
                invariant
                    c <= cols,
                    r < rows,
                    self@ == g,
                    self.wf(),
                    shaped(g, self.cols as int, self.rows as int),
                    target == resized(g, cols as int, rows as int),
                    v@.len() == c,
                    forall|k: int| 0 <= k < c ==> #[trigger] v@[k] == target[r as int][k],
                decreases cols - c,
            {
                if r < self.rows && c < self.cols {
                    v.push(self.cells[r][c]);
                } else {
                    v.push(Cell::blank());
                }
                c += 1;
            }
            assert(v@ =~= target[r as int]);
            cells.push(v);
            r += 1;
        }
        self.cells = cells;
        self.cols = cols;
        self.rows = rows;
        assert forall|i: int| 0 <= i < self.cells@.len() implies #[trigger] self.cells@[i]@.len() == self.cols by {
            assert(self.cells@[i]@ == target[i]);
        }
        assert(self@ =~= target);
    }
}

} // verus!
