use vstd::prelude::*;
use vstd::string::StringExecFns;

use crate::cell::Cell;
use crate::render::{glyph, grid_chars, render_chars, row_chars};
use crate::rules::{
    lemma_offset_coordinates, lemma_offset_in_range, neighbour_count, neighbour_weight, next_cell,
    offset_of, step, toggled,
};

verus! {

/// The universe where all cells live: a fixed-size rectangular board of
/// binary cells on a torus, stored row-major, together with a scratch
/// buffer that holds the next generation while it is being computed.
pub struct Universe {
    width: u32,
    height: u32,
    next_cells: Vec<Cell>,
    cells: Vec<Cell>,
}

impl Universe {
    /// The number of columns, as seen by specifications.
    pub closed spec fn spec_width(self) -> u32 {
        self.width
    }

    /// The number of rows, as seen by specifications.
    pub closed spec fn spec_height(self) -> u32 {
        self.height
    }

    /// The current generation, as a sequence of cells in row-major order.
    pub closed spec fn grid(self) -> Seq<Cell> {
        self.cells@
    }

    /// The scratch buffer holding the most recently computed generation.
    pub closed spec fn scratch(self) -> Seq<Cell> {
        self.next_cells@
    }

    /// The structural invariant of a universe: both dimensions are
    /// positive, the cell count fits a `u32`, and the cell buffer and the
    /// scratch buffer each hold exactly one cell per board position.
    pub open spec fn well_formed(self) -> bool {
        &&& 1 <= self.spec_width()
        &&& 1 <= self.spec_height()
        &&& self.spec_width() * self.spec_height() <= u32::MAX
        &&& self.grid().len() == self.spec_width() * self.spec_height()
        &&& self.scratch().len() == self.spec_width() * self.spec_height()
    }

    /// Create a universe of the given dimensions with every cell dead.
    pub fn new(width: u32, height: u32) -> (u: Universe)
        requires
            1 <= width,
            1 <= height,
            width * height <= u32::MAX,
        ensures
            u.well_formed(),
            u.spec_width() == width,
            u.spec_height() == height,
            forall|i: int| 0 <= i < u.grid().len() ==> u.grid()[i] == Cell::Dead,
            forall|i: int| 0 <= i < u.scratch().len() ==> u.scratch()[i] == Cell::Dead,
    {
        let len: usize = (width as usize) * (height as usize);
        Universe { width, height, next_cells: vec![Cell::Dead; len], cells: vec![Cell::Dead; len] }
    }

    /// Create a universe of the given dimensions from a supplied initial
    /// pattern, one cell per board position in row-major order. Callers
    /// that want a randomized board draw the pattern themselves and pass
    /// it in, so the engine stays deterministic.
    pub fn from_cells(width: u32, height: u32, cells: Vec<Cell>) -> (u: Universe)
        requires
            1 <= width,
            1 <= height,
            width * height <= u32::MAX,
            cells@.len() == width * height,
        ensures
            u.well_formed(),
            u.spec_width() == width,
            u.spec_height() == height,
            u.grid() == cells@,
            forall|i: int| 0 <= i < u.scratch().len() ==> u.scratch()[i] == Cell::Dead,
    {
        let len: usize = cells.len();
        Universe { width, height, next_cells: vec![Cell::Dead; len], cells }
    }

    /// Width of the universe (columns).
    pub fn width(&self) -> (w: u32)
        ensures
            w == self.spec_width(),
    {
        self.width
    }

    /// Height of the universe (rows).
    pub fn height(&self) -> (h: u32)
        ensures
            h == self.spec_height(),
    {
        self.height
    }

    /// Read-only view of the whole cell buffer, row-major: one entry per
    /// board position, for zero-copy rendering by a host.
    pub fn cells(&self) -> (v: &Vec<Cell>)
        ensures
            v@ == self.grid(),
    {
        &self.cells
    }

    /// Get all cells, as a slice in row-major order.
    pub fn get_cells(&self) -> (v: &[Cell])
        ensures
            v@ == self.grid(),
    {
        self.cells.as_slice()
    }

    /// The linear offset of the cell at `(row, column)`.
    fn get_index(&self, row: u32, column: u32) -> (i: usize)
        requires
            self.well_formed(),
            row < self.spec_height(),
            column < self.spec_width(),
        ensures
            i == offset_of(self.spec_width() as int, row as int, column as int),
            i < self.grid().len(),
    {
        proof {
            lemma_offset_in_range(self.spec_width() as int, self.spec_height() as int, row as int, column as int);
        }
        (row as usize) * (self.width as usize) + (column as usize)
    }

    /// Whether the neighbour reached from `(row, column)` by the toroidal
    /// deltas `(dr, dc)` is alive. The additions are carried out in `u64`
    /// and reduced modulo the dimensions, so they cannot underflow at the
    /// low edges nor overflow at the high ones.
    fn neighbour_live(&self, row: u32, column: u32, dr: u32, dc: u32) -> (b: bool)
        requires
            self.well_formed(),
            row < self.spec_height(),
            column < self.spec_width(),
        ensures
            (if b { 1int } else { 0int }) == neighbour_weight(
                self.grid(),
                self.spec_width() as int,
                self.spec_height() as int,
                row as int,
                column as int,
                dr as int,
                dc as int,
            ),
    {
        let h64: u64 = self.height as u64;
        let w64: u64 = self.width as u64;
        let nr: u32 = (((row as u64) + (dr as u64)) % h64) as u32;
        let nc: u32 = (((column as u64) + (dc as u64)) % w64) as u32;
        assert(nr < self.spec_height() && nc < self.spec_width()) by {
            assert((row as int + dr as int) % (h64 as int) < h64 as int);
            assert((column as int + dc as int) % (w64 as int) < w64 as int);
        };
        let idx = self.get_index(nr, nc);
        match self.cells[idx] {
            Cell::Alive => true,
            Cell::Dead => false,
        }
    }

    /// The number of live cells among the eight toroidal neighbours of
    /// `(row, column)` — always between 0 and 8.
    pub fn live_neighbour_count(&self, row: u32, column: u32) -> (n: u8)
        requires
            self.well_formed(),
            row < self.spec_height(),
            column < self.spec_width(),
        ensures
            n as int == neighbour_count(
                self.grid(),
                self.spec_width() as int,
                self.spec_height() as int,
                row as int,
                column as int,
            ),
            n <= 8,
    {
        let up: u32 = self.height - 1;
        let left: u32 = self.width - 1;
        let mut count: u8 = 0;
        if self.neighbour_live(row, column, up, left) {
            count += 1;
        }
        if self.neighbour_live(row, column, up, 0) {
            count += 1;
        }
        if self.neighbour_live(row, column, up, 1) {
            count += 1;
        }
        if self.neighbour_live(row, column, 0, left) {
            count += 1;
        }
        if self.neighbour_live(row, column, 0, 1) {
            count += 1;
        }
        if self.neighbour_live(row, column, 1, left) {
            count += 1;
        }
        if self.neighbour_live(row, column, 1, 0) {
            count += 1;
        }
        if self.neighbour_live(row, column, 1, 1) {
            count += 1;
        }
        count
    }

    /// Compute the next generation into the scratch buffer, reading only
    /// the current generation, which is left untouched: every cell is
    /// judged against the same prior snapshot.
    fn next_generation(&mut self)
        requires
            old(self).well_formed(),
        ensures
            final(self).well_formed(),
            final(self).spec_width() == old(self).spec_width(),
            final(self).spec_height() == old(self).spec_height(),
            final(self).grid() == old(self).grid(),
            final(self).scratch() == step(
                old(self).grid(),
                old(self).spec_width() as int,
                old(self).spec_height() as int,
            ),
    {
        let ghost w = self.spec_width() as int;
        let ghost h = self.spec_height() as int;
        let ghost next_grid = step(self.grid(), w, h);
        let mut next: Vec<Cell> = Vec::new();
        let mut row: u32 = 0;
        while row < self.height
            invariant
                *self == *old(self),
                self.well_formed(),
                w == self.spec_width() as int,
                h == self.spec_height() as int,
                next_grid == step(self.grid(), w, h),
                row <= self.spec_height(),
                next@.len() == row * w,
                forall|i: int| 0 <= i < next@.len() ==> next@[i] == next_grid[i],
            decreases h - row,
        {
            let mut col: u32 = 0;
            while col < self.width
                invariant
                    *self == *old(self),
                    self.well_formed(),
                    w == self.spec_width() as int,
                    h == self.spec_height() as int,
                    next_grid == step(self.grid(), w, h),
                    row < self.spec_height(),
                    col <= self.spec_width(),
                    next@.len() == row * w + col,
                    forall|i: int| 0 <= i < next@.len() ==> next@[i] == next_grid[i],
                decreases w - col,
            {
                let idx = self.get_index(row, col);
                let cur = self.cells[idx];
                let n = self.live_neighbour_count(row, col);
                let updated = match cur {
                    Cell::Alive => if 2 <= n && n <= 3 {
                        Cell::Alive
                    } else {
                        Cell::Dead
                    },
                    Cell::Dead => if n == 3 {
                        Cell::Alive
                    } else {
                        Cell::Dead
                    },
                };
                proof {
                    lemma_offset_in_range(w, h, row as int, col as int);
                    lemma_offset_coordinates(w, row as int, col as int);
                    assert(updated == next_cell(
                        self.grid()[offset_of(w, row as int, col as int)],
                        neighbour_count(self.grid(), w, h, row as int, col as int),
                    ));
                    assert(next_grid[offset_of(w, row as int, col as int)] == updated);
                }
                next.push(updated);
                col += 1;
            }
            proof {
                assert((row + 1) * w == row * w + w) by (nonlinear_arith);
            }
            row += 1;
        }
        self.next_cells = next;
        proof {
            assert(h * w == w * h) by (nonlinear_arith);
            assert(self.scratch() =~= next_grid);
        }
    }

    /// Advance the universe by one generation: compute the next generation
    /// from the current snapshot, then swap it in, so the grid is replaced
    /// in one piece and no cell ever reads an already-updated neighbour.
    pub fn tick(&mut self)
        requires
            old(self).well_formed(),
        ensures
            final(self).well_formed(),
            final(self).spec_width() == old(self).spec_width(),
            final(self).spec_height() == old(self).spec_height(),
            final(self).grid() == step(
                old(self).grid(),
                old(self).spec_width() as int,
                old(self).spec_height() as int,
            ),
    {
        self.next_generation();
        core::mem::swap(&mut self.cells, &mut self.next_cells);
    }

    /// Render the current universe state as text: one line per row, each
    /// cell drawn as one of two fixed glyphs followed by a space. A pure
    /// function of the dimensions and the current cells; the universe is
    /// not changed.
    pub fn render(&self) -> (out: String)
        requires
            self.well_formed(),
        ensures
            out@ == render_chars(
                self.grid(),
                self.spec_width() as int,
                self.spec_height() as int,
            ),
    {
        let ghost w = self.spec_width() as int;
        let ghost h = self.spec_height() as int;
        let mut out = String::new();
        let mut row: u32 = 0;
        while row < self.height
            invariant
                self.well_formed(),
                w == self.spec_width() as int,
                h == self.spec_height() as int,
                row <= self.spec_height(),
                out@ == grid_chars(self.grid(), w, row as int),
            decreases h - row,
        {
            let mut col: u32 = 0;
            proof {
                assert(out@ + row_chars(self.grid(), w, row as int, 0) =~= out@);
            }
            while col < self.width
                invariant
                    self.well_formed(),
                    w == self.spec_width() as int,
                    h == self.spec_height() as int,
                    row < self.spec_height(),
                    col <= self.spec_width(),
                    out@ == grid_chars(self.grid(), w, row as int) + row_chars(
                        self.grid(),
                        w,
                        row as int,
                        col as int,
                    ),
                decreases w - col,
            {
                let idx = self.get_index(row, col);
                let ghost before = out@;
                match self.cells[idx] {
                    Cell::Alive => out.append("◼ "),
                    Cell::Dead => out.append("◻ "),
                }
                proof {
                    reveal_strlit("◼ ");
                    reveal_strlit("◻ ");
                    assert(out@ =~= before + glyph(self.grid()[offset_of(w, row as int, col as int)]));
                    assert(out@ =~= grid_chars(self.grid(), w, row as int) + row_chars(
                        self.grid(),
                        w,
                        row as int,
                        col as int + 1,
                    ));
                }
                col += 1;
            }
            let ghost before = out@;
            out.append("\n");
            proof {
                reveal_strlit("\n");
                assert(out@ =~= before + seq!['\n']);
                assert(out@ =~= grid_chars(self.grid(), w, row as int + 1));
            }
            row += 1;
        }
        out
    }

    /// Toggle the state of one cell between dead and alive. No other cell
    /// is affected, and the scratch buffer is not touched.
    pub fn toggle_cell(&mut self, row: u32, column: u32)
        requires
            old(self).well_formed(),
            row < old(self).spec_height(),
            column < old(self).spec_width(),
        ensures
            final(self).well_formed(),
            final(self).spec_width() == old(self).spec_width(),
            final(self).spec_height() == old(self).spec_height(),
            final(self).grid() == toggled(
                old(self).grid(),
                offset_of(old(self).spec_width() as int, row as int, column as int),
            ),
            final(self).scratch() == old(self).scratch(),
    {
        let idx = self.get_index(row, column);
        let mut c = self.cells[idx];
        c.toggle();
        self.cells[idx] = c;
    }

    /// Replace both buffers with all-dead cells of the current dimensions.
    fn kill_all_cells(&mut self)
        requires
            1 <= old(self).spec_width(),
            1 <= old(self).spec_height(),
            old(self).spec_width() * old(self).spec_height() <= u32::MAX,
        ensures
            final(self).well_formed(),
            final(self).spec_width() == old(self).spec_width(),
            final(self).spec_height() == old(self).spec_height(),
            forall|i: int| 0 <= i < final(self).grid().len() ==> final(self).grid()[i] == Cell::Dead,
            forall|i: int|
                0 <= i < final(self).scratch().len() ==> final(self).scratch()[i] == Cell::Dead,
    {
        let len: usize = (self.width as usize) * (self.height as usize);
        self.cells = vec![Cell::Dead; len];
        self.next_cells = vec![Cell::Dead; len];
    }

    /// Kill all cells, keeping the dimensions. Destructive: the prior
    /// configuration is lost, and the scratch buffer is reset as well.
    pub fn clear(&mut self)
        requires
            old(self).well_formed(),
        ensures
            final(self).well_formed(),
            final(self).spec_width() == old(self).spec_width(),
            final(self).spec_height() == old(self).spec_height(),
            forall|i: int| 0 <= i < final(self).grid().len() ==> final(self).grid()[i] == Cell::Dead,
            forall|i: int|
                0 <= i < final(self).scratch().len() ==> final(self).scratch()[i] == Cell::Dead,
    {
        self.kill_all_cells();
    }

    /// Set the width of the universe. All cells will die, in the scratch
    /// buffer too.
    pub fn set_width(&mut self, width: u32)
        requires
            old(self).well_formed(),
            1 <= width,
            width * old(self).spec_height() <= u32::MAX,
        ensures
            final(self).well_formed(),
            final(self).spec_width() == width,
            final(self).spec_height() == old(self).spec_height(),
            forall|i: int| 0 <= i < final(self).grid().len() ==> final(self).grid()[i] == Cell::Dead,
            forall|i: int|
                0 <= i < final(self).scratch().len() ==> final(self).scratch()[i] == Cell::Dead,
    {
        self.width = width;
        self.kill_all_cells();
    }

    /// Set the height of the universe. All cells will die, in the scratch
    /// buffer too.
    pub fn set_height(&mut self, height: u32)
        requires
            old(self).well_formed(),
            1 <= height,
            old(self).spec_width() * height <= u32::MAX,
        ensures
            final(self).well_formed(),
            final(self).spec_width() == old(self).spec_width(),
            final(self).spec_height() == height,
            forall|i: int| 0 <= i < final(self).grid().len() ==> final(self).grid()[i] == Cell::Dead,
            forall|i: int|
                0 <= i < final(self).scratch().len() ==> final(self).scratch()[i] == Cell::Dead,
    {
        self.height = height;
        self.kill_all_cells();
    }

    /// Set the cells at the given `(row, column)` coordinates to be alive.
    /// Every listed coordinate ends up alive; every other cell is left
    /// untouched.
    pub fn set_cells(&mut self, coords: &[(u32, u32)])
        requires
            old(self).well_formed(),
            forall|k: int| 0 <= k < coords@.len() ==> coords@[k].0 < old(self).spec_height(),
            forall|k: int| 0 <= k < coords@.len() ==> coords@[k].1 < old(self).spec_width(),
        ensures
            final(self).well_formed(),
            final(self).spec_width() == old(self).spec_width(),
            final(self).spec_height() == old(self).spec_height(),
            final(self).scratch() == old(self).scratch(),
            forall|k: int| 0 <= k < coords@.len() ==> final(self).grid()[offset_of(
                old(self).spec_width() as int,
                coords@[k].0 as int,
                coords@[k].1 as int,
            )] == Cell::Alive,
            forall|i: int|
                0 <= i < final(self).grid().len() && (forall|k: int|
                    0 <= k < coords@.len() ==> i != offset_of(
                        old(self).spec_width() as int,
                        coords@[k].0 as int,
                        coords@[k].1 as int,
                    )) ==> final(self).grid()[i] == old(self).grid()[i],
    {
        let ghost w = self.spec_width() as int;
        let mut k: usize = 0;
        while k < coords.len()
            invariant
                self.well_formed(),
                w == self.spec_width() as int,
                self.spec_width() == old(self).spec_width(),
                self.spec_height() == old(self).spec_height(),
                self.scratch() == old(self).scratch(),
                self.grid().len() == old(self).grid().len(),
                k <= coords@.len(),
                forall|j: int| 0 <= j < coords@.len() ==> coords@[j].0 < self.spec_height(),
                forall|j: int| 0 <= j < coords@.len() ==> coords@[j].1 < self.spec_width(),
                forall|j: int| 0 <= j < k ==> self.grid()[offset_of(
                    w,
                    coords@[j].0 as int,
                    coords@[j].1 as int,
                )] == Cell::Alive,
                forall|i: int|
                    0 <= i < self.grid().len() && (forall|j: int|
                        0 <= j < k ==> i != offset_of(w, coords@[j].0 as int, coords@[j].1 as int))
                        ==> self.grid()[i] == old(self).grid()[i],
            decreases coords@.len() - k,
        {
            let ghost pre = self.grid();
            let (row, col) = coords[k];
            let idx = self.get_index(row, col);
            self.cells[idx] = Cell::Alive;
            proof {
                assert(self.grid() == pre.update(idx as int, Cell::Alive));
                assert forall|j: int| 0 <= j < k + 1 implies self.grid()[offset_of(
                    w,
                    coords@[j].0 as int,
                    coords@[j].1 as int,
                )] == Cell::Alive by {
                    lemma_offset_in_range(
                        w,
                        self.spec_height() as int,
                        coords@[j].0 as int,
                        coords@[j].1 as int,
                    );
                    let o = offset_of(w, coords@[j].0 as int, coords@[j].1 as int);
                    if o != idx as int {
                        assert(pre[o] == Cell::Alive);
                    }
                }
            }
            k += 1;
        }
    }
}

} // verus!
