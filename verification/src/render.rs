//! Text pictures of a grid: one symbol per cell.
use vstd::prelude::*;
use crate::model::{covers, rows_view};

verus! {

/// The symbol of a cell in state `v`: `empty` for an empty cell, `full` for a grain.
pub open spec fn symbol(v: u8, empty: char, full: char) -> char {
    if v == 0 {
        empty
    } else {
        full
    }
}

/// The first `rows` rows and `cols` columns of `g`, each cell turned into
/// `empty` when it is 0 and into `full` otherwise.
pub fn render_cells(g: &Vec<Vec<u8>>, rows: usize, cols: usize, empty: char, full: char) -> (out:
    Vec<Vec<char>>)
    requires
        covers(rows_view(g@), rows as int, cols as int),
    ensures
        out@.len() == rows,
        forall|r: int| 0 <= r < rows ==> #[trigger] out@[r]@.len() == cols,
        forall|r: int, c: int|
            0 <= r < rows && 0 <= c < cols ==> #[trigger] out@[r]@[c] == symbol(
                g@[r]@[c],
                empty,
                full,
            ),
        forall|r: int, c: int|
            0 <= r < rows && 0 <= c < cols ==> #[trigger] out@[r]@[c] == (if g@[r]@[c] == 0 {
                empty
            } else {
                full
            }),
{
    let mut out: Vec<Vec<char>> = Vec::new();
    for r in 0..rows
        invariant
            covers(rows_view(g@), rows as int, cols as int),
            out@.len() == r,
            forall|i: int| 0 <= i < r ==> #[trigger] out@[i]@.len() == cols,
            forall|i: int, c: int|
                0 <= i < r && 0 <= c < cols ==> #[trigger] out@[i]@[c] == symbol(
                    g@[i]@[c],
                    empty,
                    full,
                ),
    {
        assert(rows_view(g@)[r as int] == g@[r as int]@);
        let mut line: Vec<char> = Vec::new();
        for c in 0..cols
            invariant
                r < rows,
                covers(rows_view(g@), rows as int, cols as int),
                g@[r as int]@.len() >= cols,
                line@.len() == c,
                forall|j: int| 0 <= j < c ==> #[trigger] line@[j] == symbol(g@[r as int]@[j], empty, full),
        {
            let e = if g[r][c] == 0 {
                empty
            } else {
                full
            };
            line.push(e);
        }
        out.push(line);
    }
    out
}

/// A cell shows the empty symbol exactly when it holds 0: every grain,
/// whatever its state, shows the full symbol.
pub proof fn law_symbol_marks_every_grain(v: u8, empty: char, full: char)
    ensures
        v == 0 ==> symbol(v, empty, full) == empty,
        v != 0 ==> symbol(v, empty, full) == full,
{
}

} // verus!
