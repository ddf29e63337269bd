//! The mathematical model of the sand grid and of one step of the automaton.
use vstd::prelude::*;

verus! {

/// The grid of a vector of rows, each row taken by its view.
pub open spec fn rows_view<T>(rows: Seq<Vec<T>>) -> Seq<Seq<T>> {
    rows.map_values(|row: Vec<T>| row@)
}

/// `g` has `rows` rows of `cols` cells each.
pub open spec fn is_rect<T>(g: Seq<Seq<T>>, rows: int, cols: int) -> bool {
    &&& g.len() == rows
    &&& forall|r: int| 0 <= r < rows ==> #[trigger] g[r].len() == cols
}

/// `f` has at least `rows` rows of at least `cols` entries each.
pub open spec fn covers<T>(f: Seq<Seq<T>>, rows: int, cols: int) -> bool {
    &&& f.len() >= rows
    &&& forall|r: int| 0 <= r < rows ==> #[trigger] f[r].len() >= cols
}

/// Number of rows of a grid.
pub open spec fn height(g: Seq<Seq<u8>>) -> int {
    g.len() as int
}

/// Number of columns of a grid (the length of its first row).
pub open spec fn width(g: Seq<Seq<u8>>) -> int {
    g[0].len() as int
}

/// A non-empty rectangular grid.
pub open spec fn is_sand_grid(g: Seq<Seq<u8>>) -> bool {
    &&& height(g) >= 1
    &&& width(g) >= 1
    &&& is_rect(g, height(g), width(g))
}

/// `(r, c)` names a cell of `g`.
pub open spec fn in_grid(g: Seq<Seq<u8>>, r: int, c: int) -> bool {
    0 <= r < height(g) && 0 <= c < width(g)
}

/// A grid of `rows` by `cols` empty cells.
pub open spec fn empty_grid(rows: nat, cols: nat) -> Seq<Seq<u8>> {
    Seq::new(rows, |r: int| Seq::new(cols, |c: int| 0u8))
}

/// `g` with the cell `(r, c)` set to `v`.
pub open spec fn put(g: Seq<Seq<u8>>, r: int, c: int, v: u8) -> Seq<Seq<u8>> {
    g.update(r, g[r].update(c, v))
}

/// Where the grain at `(r, c)` of `g` goes in one step.
///
/// `f[r][c]` is the coin of that grain: when it is set the grain looks below
/// to the right (column `c + 1`) before it looks below to the left, otherwise
/// the other way round. A grain on the bottom row stays; otherwise it falls
/// straight down when the cell below is empty, else to the first empty cell
/// diagonally below in the order its coin gives, else it stays.
pub open spec fn fall_target(g: Seq<Seq<u8>>, f: Seq<Seq<bool>>, r: int, c: int) -> (int, int) {
    let first = if f[r][c] { c + 1 } else { c - 1 };
    let second = if f[r][c] { c - 1 } else { c + 1 };
    if r == height(g) - 1 {
        (r, c)
    } else if g[r + 1][c] == 0 {
        (r + 1, c)
    } else if 0 <= first < width(g) && g[r + 1][first] == 0 {
        (r + 1, first)
    } else if 0 <= second < width(g) && g[r + 1][second] == 0 {
        (r + 1, second)
    } else {
        (r, c)
    }
}

/// The next grid after the cells before `(r, c)` in row-major order have been
/// handled: it starts empty, and each grain handled writes its state at its
/// target, over whatever an earlier grain wrote there.
pub open spec fn settle(g: Seq<Seq<u8>>, f: Seq<Seq<bool>>, r: nat, c: nat) -> Seq<Seq<u8>>
    decreases r, c,
{
    if c == 0 {
        if r == 0 {
            empty_grid(g.len(), g[0].len())
        } else {
            settle(g, f, (r - 1) as nat, g[0].len())
        }
    } else {
        let prev = settle(g, f, r, (c - 1) as nat);
        let b = c - 1;
        if g[r as int][b] > 0 {
            let t = fall_target(g, f, r as int, b);
            put(prev, t.0, t.1, g[r as int][b])
        } else {
            prev
        }
    }
}

/// The grid after one step of the automaton from `g` with the coins `f`.
pub open spec fn next_grid(g: Seq<Seq<u8>>, f: Seq<Seq<bool>>) -> Seq<Seq<u8>> {
    settle(g, f, g.len(), 0)
}

} // verus!
