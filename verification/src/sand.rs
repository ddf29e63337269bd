//! The executable sand grid.
use vstd::prelude::*;
use crate::laws::handled;
use crate::model::{covers, empty_grid, fall_target, is_rect, next_grid, put, rows_view, settle};
use crate::NELEMENTS;

verus! {

/// A square grid of `NELEMENTS` by `NELEMENTS` cells; a cell holds 0 when it
/// is empty and the state of its grain otherwise.
pub struct FallingSandApp {
    data: Vec<Vec<u8>>,
}

impl View for FallingSandApp {
    type V = Seq<Seq<u8>>;

    closed spec fn view(&self) -> Seq<Seq<u8>> {
        rows_view(self.data@)
    }
}

impl FallingSandApp {
    /// The grid has `NELEMENTS` rows of `NELEMENTS` cells.
    pub open spec fn wf(&self) -> bool {
        is_rect(self@, NELEMENTS as int, NELEMENTS as int)
    }

    /// A fresh empty grid of `NELEMENTS` rows of `NELEMENTS` cells.
    pub fn create_data() -> (d: Vec<Vec<u8>>)
        ensures
            rows_view(d@) == empty_grid(NELEMENTS as nat, NELEMENTS as nat),
    {
        let mut d: Vec<Vec<u8>> = Vec::new();
        for r in 0..NELEMENTS
            invariant
                d@.len() == r,
                forall|i: int| 0 <= i < r ==> #[trigger] d@[i]@ == Seq::new(NELEMENTS as nat, |c: int| 0u8),
        {
            let mut row: Vec<u8> = Vec::new();
            for c in 0..NELEMENTS
                invariant
                    row@ == Seq::new(c as nat, |j: int| 0u8),
            {
                row.push(0);
            }
            d.push(row);
        }
        assert(rows_view(d@) =~= empty_grid(NELEMENTS as nat, NELEMENTS as nat));
        d
    }
    /// Number of rows.
    pub fn nrows(&self) -> (n: usize)
        ensures
            n == self@.len(),
    {
        self.data.len()
    }

    /// Number of columns (the length of the first row).
    pub fn ncols(&self) -> (n: usize)
        requires
            self.wf(),
        ensures
            n == self@[0].len(),
            n == NELEMENTS,
    {
        self.data[0].len()
    }

    /// Whether `v` is a column index of the grid.
    pub fn inside_cols(&self, v: usize) -> (b: bool)
        requires
            self.wf(),
        ensures
            b == (v < self@[0].len()),
    {
        v < self.ncols()
    }

    /// Whether `v` is a row index of the grid.
    pub fn inside_rows(&self, v: usize) -> (b: bool)
        ensures
            b == (v < self@.len()),
    {
        v < self.nrows()
    }

    /// Where the grain at `(r, c)` goes in this step, given its coin in `flips`.
    fn target_of(&self, flips: &Vec<Vec<bool>>, r: usize, c: usize) -> (t: (usize, usize))
        requires
            self.wf(),
            covers(rows_view(flips@), NELEMENTS as int, NELEMENTS as int),
            r < NELEMENTS,
            c < NELEMENTS,
        ensures
            t.0 as int == fall_target(self@, rows_view(flips@), r as int, c as int).0,
            t.1 as int == fall_target(self@, rows_view(flips@), r as int, c as int).1,
            t.0 < NELEMENTS,
            t.1 < NELEMENTS,
    {
        let rows = self.nrows();
        assert(rows_view(flips@)[r as int] == flips@[r as int]@);
        assert(self@[r as int] == self.data@[r as int]@);
        if r + 1 < rows {
            assert(self@[r + 1] == self.data@[r + 1]@);
        }
        let mut dir: i8 = 1;
        if flips[r][c] {
            dir = -1;
        }
        let mut below_l: u8 = u8::MAX;
        let mut below_r: u8 = u8::MAX;
        let lcol: isize = c as isize - dir as isize;
        let rcol: isize = c as isize + dir as isize;
        if r < rows - 1 && lcol >= 0 && self.inside_cols(lcol as usize) {
            below_l = self.data[r + 1][lcol as usize];
        }
        if r < rows - 1 && rcol >= 0 && self.inside_cols(rcol as usize) {
            below_r = self.data[r + 1][rcol as usize];
        }
        if r == rows - 1 {
            (r, c)
        } else {
            let nextr = r + 1;
            let below = self.data[nextr][c];
            if below == 0 {
                (nextr, c)
            } else if below_l == 0 {
                (r + 1, lcol as usize)
            } else if below_r == 0 {
                (r + 1, rcol as usize)
            } else {
                (r, c)
            }
        }
    }

    /// One step of the automaton: every grain, taken in row-major order,
    /// writes its state at its target in a fresh empty grid, which then
    /// replaces the grid. `flips[r][c]` is the coin of the grain at `(r, c)`
    /// (see `fall_target`); the coins of empty cells are not read.
    pub fn next_step(&mut self, flips: &Vec<Vec<bool>>)
        requires
            old(self).wf(),
            covers(rows_view(flips@), NELEMENTS as int, NELEMENTS as int),
        ensures
            final(self).wf(),
            final(self)@ == next_grid(old(self)@, rows_view(flips@)),
    {
        let mut next_data = FallingSandApp::create_data();
        let rows = self.nrows();
        let cols = self.ncols();
        let ghost g = self@;
        let ghost f = rows_view(flips@);
        for r in 0..rows
            invariant
                rows == NELEMENTS,
                cols == NELEMENTS,
                self@ == g,
                self.wf(),
                f == rows_view(flips@),
                covers(f, NELEMENTS as int, NELEMENTS as int),
                rows_view(next_data@) == settle(g, f, r as nat, 0),
                is_rect(rows_view(next_data@), NELEMENTS as int, NELEMENTS as int),
        {
            for c in 0..cols
                invariant
                    rows == NELEMENTS,
                    cols == NELEMENTS,
                    r < NELEMENTS,
                    self@ == g,
                    self.wf(),
                    f == rows_view(flips@),
                    covers(f, NELEMENTS as int, NELEMENTS as int),
                    rows_view(next_data@) == settle(g, f, r as nat, c as nat),
                    is_rect(rows_view(next_data@), NELEMENTS as int, NELEMENTS as int),
            {
                let state = self.data[r][c];
                assert(state == g[r as int][c as int]);
                if state > 0 {
                    let (tr, tc) = self.target_of(flips, r, c);
                    let ghost prev = rows_view(next_data@);
                    assert(prev[tr as int] == next_data@[tr as int]@);
                    next_data[tr][tc] = state;
                    assert(rows_view(next_data@) =~= put(prev, tr as int, tc as int, state));
                }
            }
        }
        self.data = next_data;
    }

    /// Empties every cell; the shape of the grid stays.
    pub fn clear_data(&mut self)
        requires
            old(self).wf(),
        ensures
            final(self).wf(),
            final(self)@ == empty_grid(NELEMENTS as nat, NELEMENTS as nat),
    {
        let rows = self.nrows();
        let cols = self.ncols();
        for r in 0..rows
            invariant
                rows == NELEMENTS,
                cols == NELEMENTS,
                self.wf(),
                forall|i: int, j: int|
                    0 <= i < r && 0 <= j < NELEMENTS ==> #[trigger] self@[i][j] == 0,
        {
            for c in 0..cols
                invariant
                    rows == NELEMENTS,
                    cols == NELEMENTS,
                    r < NELEMENTS,
                    self.wf(),
                    forall|i: int, j: int|
                        (0 <= i < r && 0 <= j < NELEMENTS) || (i == r && 0 <= j < c) ==> #[trigger] self@[i][j] == 0,
            {
                let ghost prev = self@;
                assert(prev[r as int] == self.data@[r as int]@);
                self.data[r][c] = 0;
                assert(self@ =~= put(prev, r as int, c as int, 0));
            }
        }
        assert(self@ =~= empty_grid(NELEMENTS as nat, NELEMENTS as nat)) by {
            assert forall|i: int| 0 <= i < NELEMENTS implies #[trigger] self@[i] =~= empty_grid(
                NELEMENTS as nat,
                NELEMENTS as nat,
            )[i] by {}
        }
    }

    /// The rows of the grid.
    pub fn data(&self) -> (d: &Vec<Vec<u8>>)
        ensures
            rows_view(d@) == self@,
    {
        &self.data
    }

    /// The row `index` of the grid.
    pub fn row(&self, index: usize) -> (row: &Vec<u8>)
        requires
            index < self@.len(),
        ensures
            row@ == self@[index as int],
    {
        &self.data[index]
    }

    /// Sets the cell `(r, c)` to `v`.
    pub fn set_cell(&mut self, r: usize, c: usize, v: u8)
        requires
            old(self).wf(),
            r < NELEMENTS,
            c < NELEMENTS,
        ensures
            final(self).wf(),
            final(self)@ == put(old(self)@, r as int, c as int, v),
    {
        let ghost prev = self@;
        assert(prev[r as int] == self.data@[r as int]@);
        self.data[r][c] = v;
        assert(self@ =~= put(prev, r as int, c as int, v));
    }

    /// The cells whose state is 1, the ones a canvas paints, in row-major order.
    pub fn drawn_cells(&self) -> (cells: Vec<(usize, usize)>)
        requires
            self.wf(),
        ensures
            forall|k: int|
                0 <= k < cells@.len() ==> {
                    &&& (#[trigger] cells@[k]).0 < NELEMENTS
                    &&& cells@[k].1 < NELEMENTS
                    &&& self@[cells@[k].0 as int][cells@[k].1 as int] == 1
                },
            forall|k1: int, k2: int|
                0 <= k1 < k2 < cells@.len() ==> handled(
                    #[trigger] cells@[k1].0 as int,
                    cells@[k1].1 as int,
                    #[trigger] cells@[k2].0 as int,
                    cells@[k2].1 as int,
                ),
            forall|i: int, j: int|
                0 <= i < NELEMENTS && 0 <= j < NELEMENTS && #[trigger] self@[i][j] == 1 ==> exists|k: int|
                    0 <= k < cells@.len() && cells@[k] == (i as usize, j as usize),
    {
        let mut cells: Vec<(usize, usize)> = Vec::new();
        let rows = self.nrows();
        let cols = self.ncols();
        for r in 0..rows
            invariant
                rows == NELEMENTS,
                cols == NELEMENTS,
                self.wf(),
                forall|k: int|
                    0 <= k < cells@.len() ==> {
                        &&& (#[trigger] cells@[k]).0 < r
                        &&& cells@[k].1 < NELEMENTS
                        &&& self@[cells@[k].0 as int][cells@[k].1 as int] == 1
                    },
                forall|k1: int, k2: int|
                    0 <= k1 < k2 < cells@.len() ==> handled(
                        #[trigger] cells@[k1].0 as int,
                        cells@[k1].1 as int,
                        #[trigger] cells@[k2].0 as int,
                        cells@[k2].1 as int,
                    ),
                forall|i: int, j: int|
                    0 <= i < r && 0 <= j < NELEMENTS && #[trigger] self@[i][j] == 1 ==> exists|k: int|
                        0 <= k < cells@.len() && cells@[k] == (i as usize, j as usize),
        {
            assert(self@[r as int] == self.data@[r as int]@);
            for c in 0..cols
                invariant
                    rows == NELEMENTS,
                    cols == NELEMENTS,
                    r < NELEMENTS,
                    self.wf(),
                    self@[r as int] == self.data@[r as int]@,
                    forall|k: int|
                        0 <= k < cells@.len() ==> {
                            &&& handled((#[trigger] cells@[k]).0 as int, cells@[k].1 as int, r as int, c as int)
                            &&& cells@[k].0 <= r
                            &&& cells@[k].1 < NELEMENTS
                            &&& self@[cells@[k].0 as int][cells@[k].1 as int] == 1
                        },
                    forall|k1: int, k2: int|
                        0 <= k1 < k2 < cells@.len() ==> handled(
                            #[trigger] cells@[k1].0 as int,
                            cells@[k1].1 as int,
                            #[trigger] cells@[k2].0 as int,
                            cells@[k2].1 as int,
                        ),
                    forall|i: int, j: int|
                        handled(i, j, r as int, c as int) && 0 <= i && 0 <= j < NELEMENTS
                            && #[trigger] self@[i][j] == 1 ==> exists|k: int|
                            0 <= k < cells@.len() && cells@[k] == (i as usize, j as usize),
            {
                if self.data[r][c] == 1 {
                    let ghost old_cells = cells@;
                    cells.push((r, c));
                    assert forall|i: int, j: int|
                        handled(i, j, r as int, c + 1) && 0 <= i && 0 <= j < NELEMENTS
                            && #[trigger] self@[i][j] == 1 implies exists|k: int|
                            0 <= k < cells@.len() && cells@[k] == (i as usize, j as usize) by {
                        if i == r && j == c {
                            assert(cells@[old_cells.len() as int] == (i as usize, j as usize));
                        } else {
                            let k = choose|k: int|
                                0 <= k < old_cells.len() && old_cells[k] == (i as usize, j as usize);
                            assert(cells@[k] == (i as usize, j as usize));
                        }
                    }
                }
            }
        }
        cells
    }
}

impl Default for FallingSandApp {
    /// A grid of `NELEMENTS` by `NELEMENTS` empty cells.
    fn default() -> (s: Self)
        ensures
            s.wf(),
            s@ == empty_grid(NELEMENTS as nat, NELEMENTS as nat),
    {
        FallingSandApp { data: FallingSandApp::create_data() }
    }
}

} // verus!
