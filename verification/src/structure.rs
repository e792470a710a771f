//! The widget-sizing structures: the [`Grid`] of rows and columns that
//! divides the terminal surface, and the placement and conversion queries
//! built on it.
//!
//! Every column and row holds a percentage share of the screen. Shares are
//! kept consistent by the redistribution pass of [`Grid::recalculate`], whose
//! mathematical model lives in [`crate::axis`].

use crate::axis::equal_share;
use crate::axis::flex_count;
use crate::axis::lemma_all_flex_counts;
use crate::axis::lemma_counts_step;
use crate::axis::lemma_equal_share_bounds;
use crate::axis::lemma_pinned_total_prefix_le;
use crate::axis::lemma_redistributed_pinned;
use crate::axis::lemma_redistributed_wf;
use crate::axis::lemma_share_subrange_le_total;
use crate::axis::over_allocated;
use crate::axis::pinned_total;
use crate::axis::redistributed;
use crate::axis::share_total;
use vstd::prelude::*;

verus! {

/// One grid column's data: its percentage `share` of the grid's width, and
/// whether that share is `pinned` -- set explicitly by the caller and
/// therefore left untouched by redistribution.
#[derive(Clone, Copy, Debug, PartialEq, Eq, Structural)]
pub struct GridColumn {
    pub share: u8,
    pub pinned: bool,
}

impl GridColumn {
    /// Return a new [`GridColumn`] with the same configuration as this one.
    pub fn copy(&self) -> (r: GridColumn)
        ensures
            r == *self,
    {
        GridColumn { share: self.share, pinned: self.pinned }
    }
}

/// One grid row's data: its percentage `share` of the grid's height, and
/// whether that share is `pinned`.
#[derive(Clone, Copy, Debug, PartialEq, Eq, Structural)]
pub struct GridRow {
    pub share: u8,
    pub pinned: bool,
}

impl GridRow {
    /// Return a new [`GridRow`] with the same configuration as this one.
    pub fn copy(&self) -> (r: GridRow)
        ensures
            r == *self,
    {
        GridRow { share: self.share, pinned: self.pinned }
    }
}

/// The failures a grid or axis operation can report. They are local to the
/// single call that raised them and never corrupt other state.
#[derive(Clone, Copy, Debug, PartialEq, Eq, Structural)]
pub enum GridError {
    /// An axis was asked for zero columns or rows; the equal split would
    /// divide by zero.
    InvalidLength,
    /// A configure or query named a column or row beyond the axis's length.
    IndexOutOfRange,
    /// The pinned shares of an axis would exceed 100%, leaving the
    /// redistribution pass a negative remainder.
    OverAllocation,
}

/// The columns of `cs`, as the axis model sees them.
pub open spec fn columns_model(cs: Seq<GridColumn>) -> Seq<(u8, bool)> {
    cs.map_values(|c: GridColumn| (c.share, c.pinned))
}

/// The rows of `rs`, as the axis model sees them.
pub open spec fn rows_model(rs: Seq<GridRow>) -> Seq<(u8, bool)> {
    rs.map_values(|r: GridRow| (r.share, r.pinned))
}

/// `percent`% of a screen dimension of `dim` characters: the product floored
/// by 100, capped at `u16::MAX`, and clamped to a minimum of one character so
/// that no region ever degenerates to zero width or height.
pub open spec fn percent_chars(dim: u16, percent: u8) -> u16 {
    let raw = (dim as int * percent as int) / 100;
    let capped = if raw > u16::MAX as int {
        u16::MAX as int
    } else {
        raw
    };
    if capped == 0 {
        1u16
    } else {
        capped as u16
    }
}

/// The cumulative percent offset, within an axis `s`, of the cell at 1-based
/// `index`: offsets start at 1, the first cell contributes nothing, and each
/// further cell up to `index` adds its share.
pub open spec fn offset_percent(s: Seq<(u8, bool)>, index: u8) -> int {
    1 + share_total(s.subrange(1, index as int))
}

/// Sizing data for gridding widgets: how many columns and rows the grid has,
/// what percentage of the screen each takes up, and the screen's current size
/// in characters.
///
/// A default-built grid is a 5-by-5 equal split: every share is 20%.
#[derive(Debug)]
pub struct Grid {
    /// All of this grid's columns.
    pub columns: Vec<GridColumn>,
    /// All of this grid's rows.
    pub rows: Vec<GridRow>,
    /// The screen width in characters, pushed in by the owning window on
    /// every resize; never recomputed by the grid itself.
    pub width_chars: u16,
    /// The screen height in characters, pushed in by the owning window.
    pub height_chars: u16,
}

impl Grid {
    /// This grid's columns, as the axis model sees them.
    pub open spec fn col_model(&self) -> Seq<(u8, bool)> {
        columns_model(self.columns@)
    }

    /// This grid's rows, as the axis model sees them.
    pub open spec fn row_model(&self) -> Seq<(u8, bool)> {
        rows_model(self.rows@)
    }

    /// A grid is well formed when each axis's shares sum to at most 100%.
    /// Construction and every successful mutation keep this invariant.
    pub open spec fn wf(&self) -> bool {
        share_total(self.col_model()) <= 100 && share_total(self.row_model()) <= 100
    }

    /// Return the width in chars of `percent`% of the screen. Rounds down to
    /// the nearest integer and is never less than 1.
    pub fn percent_to_char_width(&self, percent: u8) -> (r: u16)
        ensures
            r == percent_chars(self.width_chars, percent),
            r >= 1,
    {
        percent_of_dim(self.width_chars, percent)
    }

    /// Return the height in chars of `percent`% of the screen. Rounds down to
    /// the nearest integer and is never less than 1.
    pub fn percent_to_char_height(&self, percent: u8) -> (r: u16)
        ensures
            r == percent_chars(self.height_chars, percent),
            r >= 1,
    {
        percent_of_dim(self.height_chars, percent)
    }

    /// Set the width of the grid in characters. NOT a builder method.
    pub fn set_width_chars(&mut self, size: u16)
        ensures
            final(self).width_chars == size,
            final(self).height_chars == old(self).height_chars,
            final(self).columns@ == old(self).columns@,
            final(self).rows@ == old(self).rows@,
    {
        self.width_chars = size;
    }

    /// Set the height of the grid in characters. NOT a builder method.
    pub fn set_height_chars(&mut self, size: u16)
        ensures
            final(self).height_chars == size,
            final(self).width_chars == old(self).width_chars,
            final(self).columns@ == old(self).columns@,
            final(self).rows@ == old(self).rows@,
    {
        self.height_chars = size;
    }
}

impl Grid {
    /// Set the width of the grid, in columns: the column list is replaced by
    /// `width` non-pinned columns, each with an equal floored share of 100%.
    /// A width of zero is rejected with [`GridError::InvalidLength`], leaving
    /// nothing to divide by. A builder method.
    pub fn width(self, width: u8) -> (r: Result<Grid, GridError>)
        ensures
            width == 0 ==> r == Err::<Grid, GridError>(GridError::InvalidLength),
            width >= 1 ==> (r is Ok && {
                let g = r->Ok_0;
                &&& g.columns@.len() == width as int
                &&& (forall|i: int|
                    0 <= i < width as int ==> g.columns@[i] == (GridColumn {
                        share: (100int / width as int) as u8,
                        pinned: false,
                    }))
                &&& g.rows@ == self.rows@
                &&& g.width_chars == self.width_chars
                &&& g.height_chars == self.height_chars
                &&& share_total(g.col_model()) <= 100
                &&& pinned_total(g.col_model()) == 0
            }),
    {
        if width == 0 {
            return Err(GridError::InvalidLength);
        }
        let share: u8 = 100 / width;
        let columns = uniform_columns(width, share);
        let g = Grid {
            columns,
            rows: self.rows,
            width_chars: self.width_chars,
            height_chars: self.height_chars,
        };
        proof {
            lemma_uniform_axis(g.col_model(), share);
            let w = width as int;
            let q = share as int;
            vstd::arithmetic::div_mod::lemma_remainder_lower(100, w);
            assert(w * q <= 100) by (nonlinear_arith)
                requires
                    100 >= q * w,
            ;
        }
        Ok(g)
    }

    /// Set the height of the grid, in rows: the row list is replaced by
    /// `height` non-pinned rows, each with an equal floored share of 100%.
    /// A height of zero is rejected with [`GridError::InvalidLength`]. A
    /// builder method.
    pub fn height(self, height: u8) -> (r: Result<Grid, GridError>)
        ensures
            height == 0 ==> r == Err::<Grid, GridError>(GridError::InvalidLength),
            height >= 1 ==> (r is Ok && {
                let g = r->Ok_0;
                &&& g.rows@.len() == height as int
                &&& (forall|i: int|
                    0 <= i < height as int ==> g.rows@[i] == (GridRow {
                        share: (100int / height as int) as u8,
                        pinned: false,
                    }))
                &&& g.columns@ == self.columns@
                &&& g.width_chars == self.width_chars
                &&& g.height_chars == self.height_chars
                &&& share_total(g.row_model()) <= 100
                &&& pinned_total(g.row_model()) == 0
            }),
    {
        if height == 0 {
            return Err(GridError::InvalidLength);
        }
        let share: u8 = 100 / height;
        let rows = uniform_rows(height, share);
        let g = Grid {
            columns: self.columns,
            rows,
            width_chars: self.width_chars,
            height_chars: self.height_chars,
        };
        proof {
            lemma_uniform_axis(g.row_model(), share);
            let h = height as int;
            let q = share as int;
            vstd::arithmetic::div_mod::lemma_remainder_lower(100, h);
            assert(h * q <= 100) by (nonlinear_arith)
                requires
                    100 >= q * h,
            ;
        }
        Ok(g)
    }

    /// The start of the builder chain: a 5-by-5 grid with every share at 20%
    /// and nothing pinned. The character dimensions start at zero and are
    /// expected from the owning window, conventionally the live terminal size
    /// at construction time.
    pub fn builder() -> (g: Grid)
        ensures
            g.columns@.len() == 5,
            forall|i: int|
                0 <= i < 5 ==> g.columns@[i] == (GridColumn { share: 20u8, pinned: false }),
            g.rows@.len() == 5,
            forall|i: int| 0 <= i < 5 ==> g.rows@[i] == (GridRow { share: 20u8, pinned: false }),
            g.width_chars == 0,
            g.height_chars == 0,
            g.wf(),
            pinned_total(g.col_model()) == 0,
            pinned_total(g.row_model()) == 0,
    {
        let g = Grid {
            columns: uniform_columns(5, 20),
            rows: uniform_rows(5, 20),
            width_chars: 0,
            height_chars: 0,
        };
        proof {
            lemma_uniform_axis(g.col_model(), 20);
            lemma_uniform_axis(g.row_model(), 20);
        }
        g
    }

    /// Returns the completed grid as the end of the builder chain.
    pub fn build(self) -> (g: Grid)
        ensures
            g == self,
    {
        Grid {
            columns: self.columns,
            rows: self.rows,
            width_chars: self.width_chars,
            height_chars: self.height_chars,
        }
    }

    /// Shorthand for `Grid::builder().build()`.
    pub fn new() -> (g: Grid)
        ensures
            g.columns@.len() == 5,
            forall|i: int|
                0 <= i < 5 ==> g.columns@[i] == (GridColumn { share: 20u8, pinned: false }),
            g.rows@.len() == 5,
            forall|i: int| 0 <= i < 5 ==> g.rows@[i] == (GridRow { share: 20u8, pinned: false }),
            g.width_chars == 0,
            g.height_chars == 0,
            g.wf(),
    {
        Grid::builder().build()
    }
}

impl Grid {
    /// Recalculate the size of all the rows and columns based on which ones
    /// have caller-set (pinned) percentages: each axis reserves its pinned
    /// shares and splits the rest of 100% equally, by floor division, over
    /// its non-pinned cells.
    ///
    /// An axis whose pinned shares exceed 100% is left untouched and reported
    /// as [`GridError::OverAllocation`]; a fully pinned axis is left
    /// untouched without failing, there being no cell to absorb a shortfall.
    pub fn recalculate(&mut self) -> (r: Result<(), GridError>)
        ensures
            rows_model(final(self).rows@) == redistributed(rows_model(old(self).rows@)),
            columns_model(final(self).columns@) == redistributed(columns_model(old(self).columns@)),
            final(self).width_chars == old(self).width_chars,
            final(self).height_chars == old(self).height_chars,
            r is Ok <==> !over_allocated(rows_model(old(self).rows@)) && !over_allocated(
                columns_model(old(self).columns@),
            ),
            r is Err ==> r == Err::<(), GridError>(GridError::OverAllocation),
            r is Ok ==> final(self).wf(),
    {
        let rows_ok = redistribute_rows(&mut self.rows);
        let columns_ok = redistribute_columns(&mut self.columns);
        proof {
            if !over_allocated(rows_model(old(self).rows@)) {
                lemma_redistributed_wf(rows_model(old(self).rows@));
            }
            if !over_allocated(columns_model(old(self).columns@)) {
                lemma_redistributed_wf(columns_model(old(self).columns@));
            }
        }
        match (rows_ok, columns_ok) {
            (Ok(()), Ok(())) => Ok(()),
            _ => Err(GridError::OverAllocation),
        }
    }

    /// Configure the size of a particular column and pin it: `columns[col]`
    /// becomes `percent`% with its priority set, and the whole grid is then
    /// recalculated.
    ///
    /// A column index beyond the axis is rejected with
    /// [`GridError::IndexOutOfRange`] and changes nothing. Pinning more than
    /// 100% in total is reported as [`GridError::OverAllocation`]: the pin
    /// itself is kept, but the over-allocated axis is not redistributed.
    pub fn column_configure(&mut self, col: usize, percent: u8) -> (r: Result<(), GridError>)
        ensures
            col >= old(self).columns@.len() ==> {
                &&& r == Err::<(), GridError>(GridError::IndexOutOfRange)
                &&& final(self).columns@ == old(self).columns@
                &&& final(self).rows@ == old(self).rows@
            },
            col < old(self).columns@.len() ==> {
                let pinned = columns_model(old(self).columns@).update(
                    col as int,
                    (percent, true),
                );
                &&& columns_model(final(self).columns@) == redistributed(pinned)
                &&& rows_model(final(self).rows@) == redistributed(rows_model(old(self).rows@))
                &&& final(self).columns@[col as int] == (GridColumn { share: percent, pinned: true })
                &&& (r is Ok <==> !over_allocated(pinned) && !over_allocated(
                    rows_model(old(self).rows@),
                ))
                &&& (r is Err ==> r == Err::<(), GridError>(GridError::OverAllocation))
                &&& (r is Ok ==> final(self).wf())
            },
            final(self).width_chars == old(self).width_chars,
            final(self).height_chars == old(self).height_chars,
    {
        if col >= self.columns.len() {
            return Err(GridError::IndexOutOfRange);
        }
        self.columns[col] = GridColumn { share: percent, pinned: true };
        let ghost pinned = columns_model(old(self).columns@).update(col as int, (percent, true));
        proof {
            assert(columns_model(self.columns@) =~= pinned);
        }
        let r = self.recalculate();
        proof {
            lemma_redistributed_pinned(pinned, col as int);
            assert(columns_model(self.columns@).len() == self.columns@.len());
            assert(columns_model(self.columns@)[col as int] == (percent, true));
        }
        r
    }

    /// Configure the size of a particular row and pin it: `rows[row]` becomes
    /// `percent`% with its priority set, and the whole grid is then
    /// recalculated.
    ///
    /// Fails exactly as [`Grid::column_configure`] does, with the two axes'
    /// roles exchanged.
    pub fn row_configure(&mut self, row: usize, percent: u8) -> (r: Result<(), GridError>)
        ensures
            row >= old(self).rows@.len() ==> {
                &&& r == Err::<(), GridError>(GridError::IndexOutOfRange)
                &&& final(self).columns@ == old(self).columns@
                &&& final(self).rows@ == old(self).rows@
            },
            row < old(self).rows@.len() ==> {
                let pinned = rows_model(old(self).rows@).update(row as int, (percent, true));
                &&& rows_model(final(self).rows@) == redistributed(pinned)
                &&& columns_model(final(self).columns@) == redistributed(
                    columns_model(old(self).columns@),
                )
                &&& final(self).rows@[row as int] == (GridRow { share: percent, pinned: true })
                &&& (r is Ok <==> !over_allocated(pinned) && !over_allocated(
                    columns_model(old(self).columns@),
                ))
                &&& (r is Err ==> r == Err::<(), GridError>(GridError::OverAllocation))
                &&& (r is Ok ==> final(self).wf())
            },
            final(self).width_chars == old(self).width_chars,
            final(self).height_chars == old(self).height_chars,
    {
        if row >= self.rows.len() {
            return Err(GridError::IndexOutOfRange);
        }
        self.rows[row] = GridRow { share: percent, pinned: true };
        let ghost pinned = rows_model(old(self).rows@).update(row as int, (percent, true));
        proof {
            assert(rows_model(self.rows@) =~= pinned);
        }
        let r = self.recalculate();
        proof {
            lemma_redistributed_pinned(pinned, row as int);
            assert(rows_model(self.rows@).len() == self.rows@.len());
            assert(rows_model(self.rows@)[row as int] == (percent, true));
        }
        r
    }
}

/// One redistribution pass over the column axis; see [`Grid::recalculate`].
fn redistribute_columns(cells: &mut Vec<GridColumn>) -> (r: Result<(), GridError>)
    ensures
        columns_model(final(cells)@) == redistributed(columns_model(old(cells)@)),
        r is Ok <==> !over_allocated(columns_model(old(cells)@)),
        r is Err ==> r == Err::<(), GridError>(GridError::OverAllocation),
{
    let ghost s = columns_model(cells@);
    let n = cells.len();
    let mut reserved: u16 = 0;
    let mut flex: usize = 0;
    let mut i: usize = 0;
    while i < n
        invariant
            cells@ == old(cells)@,
            s == columns_model(cells@),
            n == cells@.len(),
            0 <= i <= n,
            reserved as int == pinned_total(s.subrange(0, i as int)),
            reserved <= 100,
            flex as int == flex_count(s.subrange(0, i as int)),
            flex <= i,
        decreases n - i,
    {
        let c = cells[i];
        proof {
            lemma_counts_step(s, 0, i as int);
        }
        if c.pinned {
            if reserved + c.share as u16 > 100 {
                proof {
                    lemma_pinned_total_prefix_le(s, i as int + 1);
                }
                return Err(GridError::OverAllocation);
            }
            reserved = reserved + c.share as u16;
        } else {
            flex = flex + 1;
        }
        i = i + 1;
    }
    proof {
        assert(s.subrange(0, n as int) =~= s);
    }
    if flex == 0 {
        return Ok(());
    }
    let each: u8 = ((100 - reserved) as usize / flex) as u8;
    proof {
        lemma_equal_share_bounds(s);
    }
    let mut fresh: Vec<GridColumn> = Vec::new();
    let mut j: usize = 0;
    while j < n
        invariant
            cells@ == old(cells)@,
            s == columns_model(cells@),
            n == cells@.len(),
            0 <= j <= n,
            !over_allocated(s),
            flex_count(s) != 0,
            each as int == equal_share(s),
            fresh@.len() == j as int,
            forall|m: int|
                0 <= m < j as int ==> (#[trigger] fresh@[m]) == (if s[m].1 {
                    GridColumn { share: s[m].0, pinned: true }
                } else {
                    GridColumn { share: each, pinned: false }
                }),
        decreases n - j,
    {
        let c = cells[j];
        if c.pinned {
            fresh.push(c);
        } else {
            fresh.push(GridColumn { share: each, pinned: false });
        }
        j = j + 1;
    }
    proof {
        assert(columns_model(fresh@) =~= redistributed(s));
    }
    *cells = fresh;
    Ok(())
}

/// One redistribution pass over the row axis; see [`Grid::recalculate`].
fn redistribute_rows(cells: &mut Vec<GridRow>) -> (r: Result<(), GridError>)
    ensures
        rows_model(final(cells)@) == redistributed(rows_model(old(cells)@)),
        r is Ok <==> !over_allocated(rows_model(old(cells)@)),
        r is Err ==> r == Err::<(), GridError>(GridError::OverAllocation),
{
    let ghost s = rows_model(cells@);
    let n = cells.len();
    let mut reserved: u16 = 0;
    let mut flex: usize = 0;
    let mut i: usize = 0;
    while i < n
        invariant
            cells@ == old(cells)@,
            s == rows_model(cells@),
            n == cells@.len(),
            0 <= i <= n,
            reserved as int == pinned_total(s.subrange(0, i as int)),
            reserved <= 100,
            flex as int == flex_count(s.subrange(0, i as int)),
            flex <= i,
        decreases n - i,
    {
        let c = cells[i];
        proof {
            lemma_counts_step(s, 0, i as int);
        }
        if c.pinned {
            if reserved + c.share as u16 > 100 {
                proof {
                    lemma_pinned_total_prefix_le(s, i as int + 1);
                }
                return Err(GridError::OverAllocation);
            }
            reserved = reserved + c.share as u16;
        } else {
            flex = flex + 1;
        }
        i = i + 1;
    }
    proof {
        assert(s.subrange(0, n as int) =~= s);
    }
    if flex == 0 {
        return Ok(());
    }
    let each: u8 = ((100 - reserved) as usize / flex) as u8;
    proof {
        lemma_equal_share_bounds(s);
    }
    let mut fresh: Vec<GridRow> = Vec::new();
    let mut j: usize = 0;
    while j < n
        invariant
            cells@ == old(cells)@,
            s == rows_model(cells@),
            n == cells@.len(),
            0 <= j <= n,
            !over_allocated(s),
            flex_count(s) != 0,
            each as int == equal_share(s),
            fresh@.len() == j as int,
            forall|m: int|
                0 <= m < j as int ==> (#[trigger] fresh@[m]) == (if s[m].1 {
                    GridRow { share: s[m].0, pinned: true }
                } else {
                    GridRow { share: each, pinned: false }
                }),
        decreases n - j,
    {
        let c = cells[j];
        if c.pinned {
            fresh.push(c);
        } else {
            fresh.push(GridRow { share: each, pinned: false });
        }
        j = j + 1;
    }
    proof {
        assert(rows_model(fresh@) =~= redistributed(s));
    }
    *cells = fresh;
    Ok(())
}

impl Grid {
    /// Return the size of column number `column` in characters. A column
    /// index beyond the axis is rejected with [`GridError::IndexOutOfRange`].
    pub fn get_column_chars(&self, column: u8) -> (r: Result<u16, GridError>)
        ensures
            r is Ok <==> (column as int) < self.columns@.len(),
            r is Ok ==> r->Ok_0 == percent_chars(self.width_chars, self.columns@[column as int].share)
                && r->Ok_0 >= 1,
            r is Err ==> r == Err::<u16, GridError>(GridError::IndexOutOfRange),
    {
        if column as usize >= self.columns.len() {
            return Err(GridError::IndexOutOfRange);
        }
        Ok(self.percent_to_char_width(self.columns[column as usize].share))
    }

    /// Return the size of row number `row` in characters. A row index beyond
    /// the axis is rejected with [`GridError::IndexOutOfRange`].
    pub fn get_row_chars(&self, row: u8) -> (r: Result<u16, GridError>)
        ensures
            r is Ok <==> (row as int) < self.rows@.len(),
            r is Ok ==> r->Ok_0 == percent_chars(self.height_chars, self.rows@[row as int].share)
                && r->Ok_0 >= 1,
            r is Err ==> r == Err::<u16, GridError>(GridError::IndexOutOfRange),
    {
        if row as usize >= self.rows.len() {
            return Err(GridError::IndexOutOfRange);
        }
        Ok(self.percent_to_char_height(self.rows[row as usize].share))
    }

    /// Get the placement of the character at the top left of the cell at
    /// 1-based (`column`, `row`), in percent of screen size, as an `(x, y)`
    /// pair: offsets start at 1, the first column and row contribute nothing,
    /// and each further cell adds its share. An index past the end of its
    /// axis is rejected with [`GridError::IndexOutOfRange`].
    pub fn get_placement_percent(&self, column: u8, row: u8) -> (r: Result<(u8, u8), GridError>)
        requires
            self.wf(),
            column >= 1,
            row >= 1,
        ensures
            r is Ok <==> (column as int) <= self.columns@.len() && (row as int) <= self.rows@.len(),
            r is Ok ==> r->Ok_0.0 as int == offset_percent(self.col_model(), column)
                && r->Ok_0.1 as int == offset_percent(self.row_model(), row),
            r is Err ==> r == Err::<(u8, u8), GridError>(GridError::IndexOutOfRange),
    {
        if column as usize > self.columns.len() || row as usize > self.rows.len() {
            return Err(GridError::IndexOutOfRange);
        }
        let ghost cm = self.col_model();
        let ghost rm = self.row_model();
        let mut percent_x: u8 = 1;
        let mut percent_y: u8 = 1;
        let mut c: usize = 1;
        while c < column as usize
            invariant
                self.wf(),
                cm == self.col_model(),
                1 <= c <= column as int,
                column as int <= self.columns@.len(),
                percent_x as int == 1 + share_total(cm.subrange(1, c as int)),
            decreases column as int - c,
        {
            proof {
                lemma_counts_step(cm, 1, c as int);
                lemma_share_subrange_le_total(cm, 1, c as int + 1);
                crate::axis::lemma_counts_nonneg(cm.subrange(1, c as int));
            }
            percent_x = percent_x + self.columns[c].share;
            c = c + 1;
        }
        let mut w: usize = 1;
        while w < row as usize
            invariant
                self.wf(),
                rm == self.row_model(),
                1 <= w <= row as int,
                row as int <= self.rows@.len(),
                percent_y as int == 1 + share_total(rm.subrange(1, w as int)),
            decreases row as int - w,
        {
            proof {
                lemma_counts_step(rm, 1, w as int);
                lemma_share_subrange_le_total(rm, 1, w as int + 1);
                crate::axis::lemma_counts_nonneg(rm.subrange(1, w as int));
            }
            percent_y = percent_y + self.rows[w].share;
            w = w + 1;
        }
        Ok((percent_x, percent_y))
    }

    /// Get the placement of the character at the top left of the cell at
    /// 1-based (`column`, `row`), in characters, as an `(x, y)` pair: the
    /// percent placement of [`Grid::get_placement_percent`] converted through
    /// [`Grid::percent_to_char_width`] and [`Grid::percent_to_char_height`].
    pub fn get_placement_chars(&self, column: u8, row: u8) -> (r: Result<(u16, u16), GridError>)
        requires
            self.wf(),
            column >= 1,
            row >= 1,
        ensures
            r is Ok <==> (column as int) <= self.columns@.len() && (row as int) <= self.rows@.len(),
            r is Ok ==> r->Ok_0.0 == percent_chars(
                self.width_chars,
                offset_percent(self.col_model(), column) as u8,
            ) && r->Ok_0.1 == percent_chars(
                self.height_chars,
                offset_percent(self.row_model(), row) as u8,
            ),
            r is Err ==> r == Err::<(u16, u16), GridError>(GridError::IndexOutOfRange),
    {
        match self.get_placement_percent(column, row) {
            Ok((x, y)) => Ok((self.percent_to_char_width(x), self.percent_to_char_height(y))),
            Err(e) => Err(e),
        }
    }
}

/// Law: on a grid whose columns all hold the same share -- the newly
/// constructed equal split among them -- every column has the same character
/// extent.
pub proof fn lemma_uniform_column_extents(g: Grid, i: int, j: int)
    requires
        0 <= i < g.columns@.len(),
        0 <= j < g.columns@.len(),
        forall|m: int|
            0 <= m < g.columns@.len() ==> (#[trigger] g.columns@[m]).share == g.columns@[0].share,
    ensures
        percent_chars(g.width_chars, g.columns@[i].share) == percent_chars(
            g.width_chars,
            g.columns@[j].share,
        ),
{
}

/// Law: on a grid whose rows all hold the same share, every row has the same
/// character extent.
pub proof fn lemma_uniform_row_extents(g: Grid, i: int, j: int)
    requires
        0 <= i < g.rows@.len(),
        0 <= j < g.rows@.len(),
        forall|m: int| 0 <= m < g.rows@.len() ==> (#[trigger] g.rows@[m]).share == g.rows@[0].share,
    ensures
        percent_chars(g.height_chars, g.rows@[i].share) == percent_chars(
            g.height_chars,
            g.rows@[j].share,
        ),
{
}

/// On an axis whose cells all hold share `v` and no pin, nothing is reserved
/// and the shares sum to the cell count times `v`.
proof fn lemma_uniform_axis(s: Seq<(u8, bool)>, v: u8)
    requires
        forall|j: int| 0 <= j < s.len() ==> #[trigger] s[j] == (v, false),
    ensures
        share_total(s) == s.len() * v,
        pinned_total(s) == 0,
        flex_count(s) == s.len(),
{
    crate::axis::lemma_uniform_share_total(s, v);
    lemma_all_flex_counts(s);
}

/// `count` columns, each non-pinned with the given share.
fn uniform_columns(count: u8, share: u8) -> (r: Vec<GridColumn>)
    ensures
        r@.len() == count as int,
        forall|i: int| 0 <= i < count as int ==> r@[i] == (GridColumn { share, pinned: false }),
{
    let mut v: Vec<GridColumn> = Vec::new();
    let mut i: u8 = 0;
    while i < count
        invariant
            i <= count,
            v@.len() == i as int,
            forall|m: int| 0 <= m < i as int ==> v@[m] == (GridColumn { share, pinned: false }),
        decreases count - i,
    {
        v.push(GridColumn { share, pinned: false });
        i = i + 1;
    }
    v
}

/// `count` rows, each non-pinned with the given share.
fn uniform_rows(count: u8, share: u8) -> (r: Vec<GridRow>)
    ensures
        r@.len() == count as int,
        forall|i: int| 0 <= i < count as int ==> r@[i] == (GridRow { share, pinned: false }),
{
    let mut v: Vec<GridRow> = Vec::new();
    let mut i: u8 = 0;
    while i < count
        invariant
            i <= count,
            v@.len() == i as int,
            forall|m: int| 0 <= m < i as int ==> v@[m] == (GridRow { share, pinned: false }),
        decreases count - i,
    {
        v.push(GridRow { share, pinned: false });
        i = i + 1;
    }
    v
}

/// `percent`% of `dim` characters, floored, capped at `u16::MAX` and clamped
/// to a minimum of 1.
fn percent_of_dim(dim: u16, percent: u8) -> (r: u16)
    ensures
        r == percent_chars(dim, percent),
        r >= 1,
{
    assert(dim as int * percent as int <= 65535 * 255) by (nonlinear_arith)
        requires
            dim <= 65535,
            percent <= 255,
    ;
    let raw: u32 = (dim as u32) * (percent as u32) / 100;
    let capped: u16 = if raw > 65535 {
        65535u16
    } else {
        raw as u16
    };
    if capped == 0 {
        1
    } else {
        capped
    }
}

} // verus!
