//! A rectangular area divided into equally sized cells separated by gaps.
use vstd::prelude::*;

use crate::{fits_isize, Rect};

verus! {

/// `v`, or zero where `v` is negative.
pub open spec fn max0(v: int) -> int {
    if v > 0 {
        v
    } else {
        0
    }
}

/// `area` holds `rows` by `columns` cells, with `cell_gap` between
/// neighbouring cells and along the border.
#[derive(Debug, Clone, Copy, PartialEq, Eq, Structural)]
pub struct GridLayout {
    pub area: Rect,
    pub rows: usize,
    pub columns: usize,
    pub cell_gap: isize,
}

impl GridLayout {
    /// The room the gaps take along each axis: one gap more than cells.
    pub open spec fn gaps(self) -> (int, int) {
        ((self.columns + 1) * self.cell_gap, (self.rows + 1) * self.cell_gap)
    }

    /// The arithmetic of `cell_size` stays within `isize` and divides by
    /// no zero.
    pub open spec fn cell_size_ok(self) -> bool {
        &&& 0 < self.columns < isize::MAX
        &&& 0 < self.rows < isize::MAX
        &&& fits_isize(self.gaps().0)
        &&& fits_isize(self.gaps().1)
        &&& fits_isize(self.area.width - self.gaps().0)
        &&& fits_isize(self.area.height - self.gaps().1)
    }

    /// The size of one cell: the room left over by the gaps (never
    /// negative), shared out evenly and rounded down.
    pub open spec fn spec_cell_size(self) -> (int, int) {
        (
            max0(self.area.width - self.gaps().0) / (self.columns as int),
            max0(self.area.height - self.gaps().1) / (self.rows as int),
        )
    }

    /// The top left of the first cell: the area's corner moved by one gap.
    pub open spec fn spec_origin(self) -> (int, int) {
        (self.area.x + self.cell_gap, self.area.y + self.cell_gap)
    }

    pub open spec fn origin_ok(self) -> bool {
        &&& fits_isize(self.spec_origin().0)
        &&& fits_isize(self.spec_origin().1)
    }

    /// The rectangle `cell_rect` gives: a cell sized rectangle at the origin
    /// of the grid, wherever the row and column asked for.
    pub open spec fn spec_cell_rect(self) -> Rect {
        Rect {
            x: self.spec_origin().0 as isize,
            y: self.spec_origin().1 as isize,
            width: self.spec_cell_size().0 as isize,
            height: self.spec_cell_size().1 as isize,
        }
    }

    /// The distance from one cell to the next along each axis.
    pub open spec fn spec_step(self) -> (int, int) {
        (self.spec_cell_size().0 + self.cell_gap, self.spec_cell_size().1 + self.cell_gap)
    }

    /// The cell in row `r` and column `c`.
    pub open spec fn spec_grid_cell(self, r: int, c: int) -> Rect {
        Rect {
            x: (self.spec_origin().0 + c * self.spec_step().0) as isize,
            y: (self.spec_origin().1 + r * self.spec_step().1) as isize,
            width: self.spec_cell_size().0 as isize,
            height: self.spec_cell_size().1 as isize,
        }
    }

    /// All cells in row major order, each with its row and column.
    pub open spec fn spec_cells(self) -> Seq<(usize, usize, Rect)> {
        Seq::new(
            (self.rows * self.columns) as nat,
            |k: int|
                (
                    (k / self.columns as int) as usize,
                    (k % self.columns as int) as usize,
                    self.spec_grid_cell(k / self.columns as int, k % self.columns as int),
                ),
        )
    }

    /// The arithmetic of `iter_cells` stays within `isize`, and the cells fit
    /// in memory.
    pub open spec fn cells_ok(self) -> bool {
        &&& self.cell_size_ok()
        &&& self.origin_ok()
        &&& self.rows * self.columns <= isize::MAX
        &&& fits_isize(self.spec_step().0)
        &&& fits_isize(self.spec_step().1)
        &&& fits_isize((self.columns - 1) * self.spec_step().0)
        &&& fits_isize((self.rows - 1) * self.spec_step().1)
        &&& fits_isize(self.spec_origin().0 + (self.columns - 1) * self.spec_step().0)
        &&& fits_isize(self.spec_origin().1 + (self.rows - 1) * self.spec_step().1)
    }

    pub fn cell_size(&self) -> (s: (isize, isize))
        requires
            self.cell_size_ok(),
        ensures
            s.0 == self.spec_cell_size().0,
            s.1 == self.spec_cell_size().1,
            s.0 >= 0,
            s.1 >= 0,
    {
        let gap_w: isize = (self.columns as isize + 1) * self.cell_gap;
        let gap_h: isize = (self.rows as isize + 1) * self.cell_gap;
        let w: isize = self.area.width - gap_w;
        let h: isize = self.area.height - gap_h;
        // never negative
        let sw: isize = if w > 0 {
            w
        } else {
            0
        };
        let sh: isize = if h > 0 {
            h
        } else {
            0
        };
        let cols: isize = self.columns as isize;
        let rows: isize = self.rows as isize;
        proof {
            vstd::arithmetic::div_mod::lemma_div_pos_is_pos(sw as int, cols as int);
            vstd::arithmetic::div_mod::lemma_div_pos_is_pos(sh as int, rows as int);
        }
        let cw: isize = sw / cols;
        let ch: isize = sh / rows;
        (cw, ch)
    }

    pub fn origin(&self) -> (o: (isize, isize))
        requires
            self.origin_ok(),
        ensures
            o.0 == self.spec_origin().0,
            o.1 == self.spec_origin().1,
    {
        (self.area.x + self.cell_gap, self.area.y + self.cell_gap)
    }

    /// A rectangle of one cell's size at the origin of the grid; `r` and `c`
    /// do not move it.
    pub fn cell_rect(&self, r: usize, c: usize) -> (rect: Rect)
        requires
            self.cell_size_ok(),
            self.origin_ok(),
        ensures
            rect == self.spec_cell_rect(),
    {
        let cell: (isize, isize) = self.cell_size();
        let origin: (isize, isize) = self.origin();
        Rect { x: origin.0, y: origin.1, width: cell.0, height: cell.1 }
    }

    /// Every cell of the grid with its row and column, row by row.
    pub fn iter_cells(&self) -> (cells: Vec<(usize, usize, Rect)>)
        requires
            self.cells_ok(),
        ensures
            cells@ == self.spec_cells(),
    {
        let cell_size: (isize, isize) = self.cell_size();
        let origin: (isize, isize) = self.origin();
        let step: (isize, isize) = (cell_size.0 + self.cell_gap, cell_size.1 + self.cell_gap);
        let ghost total: int = self.rows * self.columns;
        let mut cells: Vec<(usize, usize, Rect)> = Vec::new();
        let mut r: usize = 0;
        while r < self.rows
            invariant
                self.cells_ok(),
                step.0 == self.spec_step().0,
                step.1 == self.spec_step().1,
                origin.0 == self.spec_origin().0,
                origin.1 == self.spec_origin().1,
                cell_size.0 == self.spec_cell_size().0,
                cell_size.1 == self.spec_cell_size().1,
                total == self.rows * self.columns,
                r <= self.rows,
                cells@.len() == r * self.columns,
                cells@ =~= self.spec_cells().take(r * self.columns),
            decreases self.rows - r,
        {
            proof {
                lemma_row_block(r as int, self.rows as int, self.columns as int);
                lemma_between_mul(r as int, self.rows - 1, self.spec_step().1);
            }
            let top_left_y: isize = origin.1 + r as isize * step.1;
            let mut c: usize = 0;
            while c < self.columns
                invariant
                    self.cells_ok(),
                    step.0 == self.spec_step().0,
                    step.1 == self.spec_step().1,
                    origin.0 == self.spec_origin().0,
                    origin.1 == self.spec_origin().1,
                    cell_size.0 == self.spec_cell_size().0,
                    cell_size.1 == self.spec_cell_size().1,
                    top_left_y == self.spec_origin().1 + r * self.spec_step().1,
                    r < self.rows,
                    c <= self.columns,
                    (r + 1) * self.columns <= self.rows * self.columns,
                    r * self.columns + self.columns == (r + 1) * self.columns,
                    cells@.len() == r * self.columns + c,
                    cells@ =~= self.spec_cells().take(r * self.columns + c),
                decreases self.columns - c,
            {
                proof {
                    lemma_between_mul(c as int, self.columns - 1, self.spec_step().0);
                    lemma_cell_index(r as int, c as int, self.columns as int);
                }
                let top_left_x: isize = origin.0 + c as isize * step.0;
                let cell = Rect { x: top_left_x, y: top_left_y, width: cell_size.0, height: cell_size.1 };
                cells.push((r, c, cell));
                proof {
                    let k = r * self.columns + c;
                    assert(k < self.rows * self.columns);
                    assert(k / self.columns as int == r);
                    assert(k % self.columns as int == c);
                    assert(cell == self.spec_grid_cell(r as int, c as int));
                    assert(self.spec_cells()[k] == (r, c, cell));
                    assert(cells@ =~= self.spec_cells().take(k + 1));
                }
                c = c + 1;
            }
            r = r + 1;
        }
        proof {
            assert(self.spec_cells().take(total) =~= self.spec_cells());
        }
        cells
    }

    /// The point lies in the half open extent of the cell.
    pub open spec fn spec_hit(rect: Rect, x: int, y: int) -> bool {
        &&& rect.x <= x < rect.x + rect.width
        &&& rect.y <= y < rect.y + rect.height
    }

    /// The first cell, in row major order, that holds the point.
    pub open spec fn spec_first_hit(cells: Seq<(usize, usize, Rect)>, x: int, y: int) -> Option<
        (usize, usize, Rect),
    >
        decreases cells.len(),
    {
        if cells.len() == 0 {
            None
        } else if Self::spec_hit(cells[0].2, x, y) {
            Some(cells[0])
        } else {
            Self::spec_first_hit(cells.drop_first(), x, y)
        }
    }

    /// The cell under a pointer position, if the pointer is over the grid.
    pub open spec fn spec_cell_for_mouse(self, position: Option<(isize, isize)>) -> Option<
        (usize, usize, Rect),
    > {
        match position {
            None => None,
            Some((x, y)) => Self::spec_first_hit(self.spec_cells(), x as int, y as int),
        }
    }

    /// The cell, with its row and column, that holds the pointer position;
    /// `None` without a position or where no cell holds it.
    pub fn cell_for_mouse(&self, position: Option<(isize, isize)>) -> (hit: Option<
        (usize, usize, Rect),
    >)
        requires
            self.cells_ok(),
        ensures
            hit == self.spec_cell_for_mouse(position),
    {
        match position {
            None => None,
            Some((x, y)) => {
                let cells = self.iter_cells();
                let mut k: usize = 0;
                assert(cells@.skip(0) =~= cells@);
                while k < cells.len()
                    invariant
                        cells@ == self.spec_cells(),
                        position == Some((x, y)),
                        k <= cells@.len(),
                        Self::spec_first_hit(cells@, x as int, y as int) == Self::spec_first_hit(
                            cells@.skip(k as int),
                            x as int,
                            y as int,
                        ),
                    decreases cells@.len() - k,
                {
                    let rect: Rect = cells[k].2;
                    let x0: i128 = rect.x as i128;
                    let y0: i128 = rect.y as i128;
                    let hit: bool = x0 <= x as i128 && (x as i128) < x0 + rect.width as i128
                        && y0 <= y as i128 && (y as i128) < y0 + rect.height as i128;
                    proof {
                        assert(cells@.skip(k as int)[0] == cells@[k as int]);
                        assert(cells@.skip(k as int).drop_first() =~= cells@.skip(k + 1));
                    }
                    if hit {
                        assert(Self::spec_hit(cells@.skip(k as int)[0].2, x as int, y as int));
                        assert(Self::spec_first_hit(cells@.skip(k as int), x as int, y as int) == Some(cells@[k as int]));
                        let found = cells[k];
                        assert(found == cells@[k as int]);

                        return Some(found);
                    }
                    k = k + 1;
                }
                None
            },
        }
    }
}

/// The first cell that holds a point is one of the cells, and holds it.
pub proof fn lemma_first_hit_is_cell(cells: Seq<(usize, usize, Rect)>, x: int, y: int)
    ensures
        match GridLayout::spec_first_hit(cells, x, y) {
            Some(t) => cells.contains(t) && GridLayout::spec_hit(t.2, x, y),
            None => forall|k: int| 0 <= k < cells.len() ==> !GridLayout::spec_hit(#[trigger] cells[k].2, x, y),
        },
    decreases cells.len(),
{
    if cells.len() > 0 {
        lemma_first_hit_is_cell(cells.drop_first(), x, y);
        if !GridLayout::spec_hit(cells[0].2, x, y) {
            match GridLayout::spec_first_hit(cells.drop_first(), x, y) {
                Some(t) => {
                    let k = choose|k: int| 0 <= k < cells.drop_first().len() && cells.drop_first()[k] == t;
                    assert(cells[k + 1] == t);
                },
                None => {
                    assert forall|k: int| 0 <= k < cells.len() implies !GridLayout::spec_hit(#[trigger] cells[k].2, x, y) by {
                        if k > 0 {
                            assert(cells[k] == cells.drop_first()[k - 1]);
                        }
                    }
                },
            }
        } else {
            assert(cells.contains(cells[0]));
        }
    }
}

/// The cell that `iter_cells` lists at row `r` and column `c`.
pub proof fn lemma_cells_at(g: GridLayout, r: int, c: int)
    requires
        0 <= r < g.rows,
        0 <= c < g.columns,
    ensures
        r * g.columns + c < g.rows * g.columns,
        g.spec_cells()[r * g.columns + c] == (r as usize, c as usize, g.spec_grid_cell(r, c)),
{
    lemma_cell_index(r, c, g.columns as int);
    lemma_row_block(r, g.rows as int, g.columns as int);
}

proof fn lemma_row_block(r: int, rows: int, cols: int)
    requires
        0 <= r < rows,
        cols >= 0,
    ensures
        (r + 1) * cols <= rows * cols,
        r * cols + cols == (r + 1) * cols,
{
    assert((r + 1) * cols <= rows * cols) by (nonlinear_arith)
        requires
            r + 1 <= rows,
            cols >= 0,
    ;
    assert(r * cols + cols == (r + 1) * cols) by (nonlinear_arith);
}

proof fn lemma_cell_index(r: int, c: int, cols: int)
    requires
        r >= 0,
        0 <= c < cols,
    ensures
        (r * cols + c) / cols == r,
        (r * cols + c) % cols == c,
{
    vstd::arithmetic::div_mod::lemma_fundamental_div_mod_converse(r * cols + c, cols, r, c);
}

/// `i * s` lies between `0` and `n * s` for `0 <= i <= n`.
proof fn lemma_between_mul(i: int, n: int, s: int)
    requires
        0 <= i <= n,
    ensures
        s >= 0 ==> 0 <= i * s <= n * s,
        s < 0 ==> n * s <= i * s <= 0,
{
    if s >= 0 {
        assert(0 <= i * s <= n * s) by (nonlinear_arith)
            requires
                0 <= i <= n,
                s >= 0,
        ;
    } else {
        assert(n * s <= i * s <= 0) by (nonlinear_arith)
            requires
                0 <= i <= n,
                s < 0,
        ;
    }
}

} // verus!
