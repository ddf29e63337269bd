//! What one step of the automaton does, cell by cell, and what it keeps.
use vstd::prelude::*;
use crate::model::{
    covers, empty_grid, fall_target, height, in_grid, is_rect, is_sand_grid, next_grid, put,
    settle, width,
};

verus! {

/// The grain at `(a, b)` of `g` goes to `(i, j)`.
pub open spec fn moves_to(
    g: Seq<Seq<u8>>,
    f: Seq<Seq<bool>>,
    a: int,
    b: int,
    i: int,
    j: int,
) -> bool {
    &&& in_grid(g, a, b)
    &&& g[a][b] > 0
    &&& fall_target(g, f, a, b) == (i, j)
}

/// The cell `(a, b)` comes before `(r, c)` in row-major order.
pub open spec fn handled(a: int, b: int, r: int, c: int) -> bool {
    a < r || (a == r && b < c)
}

/// What the cell `(i, j)` of the next grid holds once the cells before
/// `(r, c)` have been handled: the grains that can reach `(i, j)` are the one
/// on it and the three above it, and of those that were handled and go there,
/// the last one in row-major order wins.
pub open spec fn filled_so_far(
    g: Seq<Seq<u8>>,
    f: Seq<Seq<bool>>,
    r: int,
    c: int,
    i: int,
    j: int,
) -> u8 {
    if handled(i, j, r, c) && moves_to(g, f, i, j, i, j) {
        g[i][j]
    } else if handled(i - 1, j + 1, r, c) && moves_to(g, f, i - 1, j + 1, i, j) {
        g[i - 1][j + 1]
    } else if handled(i - 1, j, r, c) && moves_to(g, f, i - 1, j, i, j) {
        g[i - 1][j]
    } else if handled(i - 1, j - 1, r, c) && moves_to(g, f, i - 1, j - 1, i, j) {
        g[i - 1][j - 1]
    } else {
        0
    }
}

/// The local rule of the automaton: the cell `(i, j)` of the next grid holds
/// its own grain when that grain stays; otherwise the grain from the upper
/// right that moves into it, else the one from straight above, else the one
/// from the upper left; otherwise it is empty.
pub open spec fn local_next(g: Seq<Seq<u8>>, f: Seq<Seq<bool>>, i: int, j: int) -> u8 {
    if moves_to(g, f, i, j, i, j) {
        g[i][j]
    } else if moves_to(g, f, i - 1, j + 1, i, j) {
        g[i - 1][j + 1]
    } else if moves_to(g, f, i - 1, j, i, j) {
        g[i - 1][j]
    } else if moves_to(g, f, i - 1, j - 1, i, j) {
        g[i - 1][j - 1]
    } else {
        0
    }
}

/// A grain lands on a cell of the grid at most one row below it and at most
/// one column aside, and it only leaves its cell for one that was empty.
pub proof fn lemma_target_local(g: Seq<Seq<u8>>, f: Seq<Seq<bool>>, a: int, b: int)
    requires
        is_sand_grid(g),
        covers(f, height(g), width(g)),
        in_grid(g, a, b),
    ensures
        in_grid(g, fall_target(g, f, a, b).0, fall_target(g, f, a, b).1),
        fall_target(g, f, a, b) == (a, b) || fall_target(g, f, a, b) == (a + 1, b)
            || fall_target(g, f, a, b) == (a + 1, b - 1) || fall_target(g, f, a, b) == (a + 1,
        b + 1),
        fall_target(g, f, a, b) != (a, b) ==> g[fall_target(g, f, a, b).0][fall_target(
            g,
            f,
            a,
            b,
        ).1] == 0,
{
}

/// The cells before `(r, c)` in row-major order are cells of the grid.
pub open spec fn settle_domain(g: Seq<Seq<u8>>, r: nat, c: nat) -> bool {
    (r < height(g) && c <= width(g)) || (r == height(g) && c == 0)
}

/// Handling the cells of `g` one by one in row-major order gives, at every
/// cell, what `filled_so_far` says.
pub proof fn lemma_settle_local(g: Seq<Seq<u8>>, f: Seq<Seq<bool>>, r: nat, c: nat)
    requires
        is_sand_grid(g),
        covers(f, height(g), width(g)),
        settle_domain(g, r, c),
    ensures
        is_rect(settle(g, f, r, c), height(g), width(g)),
        forall|i: int, j: int|
            in_grid(g, i, j) ==> #[trigger] settle(g, f, r, c)[i][j] == filled_so_far(
                g,
                f,
                r as int,
                c as int,
                i,
                j,
            ),
    decreases r, c,
{
    let s = settle(g, f, r, c);
    if c == 0 {
        if r == 0 {
            assert(is_rect(s, height(g), width(g)));
        } else {
            lemma_settle_local(g, f, (r - 1) as nat, g[0].len());
        }
    } else {
        let b = c - 1;
        lemma_settle_local(g, f, r, (c - 1) as nat);
        let prev = settle(g, f, r, (c - 1) as nat);
        if g[r as int][b] > 0 {
            lemma_target_local(g, f, r as int, b);
            let t = fall_target(g, f, r as int, b);
            assert(s == put(prev, t.0, t.1, g[r as int][b]));
            assert forall|i: int, j: int| in_grid(g, i, j) implies #[trigger] s[i][j]
                == filled_so_far(g, f, r as int, c as int, i, j) by {
                assert(prev[i][j] == filled_so_far(g, f, r as int, (c - 1) as int, i, j));
            }
        } else {
            assert forall|i: int, j: int| in_grid(g, i, j) implies #[trigger] s[i][j]
                == filled_so_far(g, f, r as int, c as int, i, j) by {
                assert(prev[i][j] == filled_so_far(g, f, r as int, (c - 1) as int, i, j));
            }
        }
    }
}

/// One step of the automaton is a local rule: each cell of the next grid is
/// given by `local_next` from the cell itself and the three cells above it.
/// The next grid has the shape of the old one.
pub proof fn law_step_is_local(g: Seq<Seq<u8>>, f: Seq<Seq<bool>>)
    requires
        is_sand_grid(g),
        covers(f, height(g), width(g)),
    ensures
        is_rect(next_grid(g, f), height(g), width(g)),
        forall|i: int, j: int|
            in_grid(g, i, j) ==> #[trigger] next_grid(g, f)[i][j] == local_next(g, f, i, j),
{
    lemma_settle_local(g, f, g.len(), 0);
}

/// Reading a cell after setting one gives the value set on that cell and the
/// old value on every other cell; the shape of the grid stays.
pub proof fn law_read_after_put(g: Seq<Seq<u8>>, r: int, c: int, v: u8, i: int, j: int)
    requires
        is_sand_grid(g),
        in_grid(g, r, c),
        in_grid(g, i, j),
    ensures
        is_rect(put(g, r, c, v), height(g), width(g)),
        put(g, r, c, v)[i][j] == (if i == r && j == c {
            v
        } else {
            g[i][j]
        }),
{
}

/// A grid with no grain stays without any grain.
pub proof fn law_empty_stays_empty(g: Seq<Seq<u8>>, f: Seq<Seq<bool>>)
    requires
        is_sand_grid(g),
        covers(f, height(g), width(g)),
        forall|i: int, j: int| in_grid(g, i, j) ==> #[trigger] g[i][j] == 0,
    ensures
        next_grid(g, f) == empty_grid(g.len(), g[0].len()),
{
    law_step_is_local(g, f);
    let n = next_grid(g, f);
    let e = empty_grid(g.len(), g[0].len());
    assert forall|i: int| 0 <= i < n.len() implies #[trigger] n[i] == e[i] by {
        assert forall|j: int| 0 <= j < n[i].len() implies #[trigger] n[i][j] == e[i][j] by {
            assert(n[i][j] == local_next(g, f, i, j));
        }
        assert(n[i] =~= e[i]);
    }
    assert(n =~= e);
}

/// A grain that stays where it is keeps its cell, with its state.
/// In particular a grain on the bottom row never moves.
pub proof fn law_resting_grain_stays(g: Seq<Seq<u8>>, f: Seq<Seq<bool>>, i: int, j: int)
    requires
        is_sand_grid(g),
        covers(f, height(g), width(g)),
        in_grid(g, i, j),
        g[i][j] > 0,
        fall_target(g, f, i, j) == (i, j) || i == height(g) - 1,
    ensures
        next_grid(g, f)[i][j] == g[i][j],
{
    law_step_is_local(g, f);
    assert(next_grid(g, f)[i][j] == local_next(g, f, i, j));
}

/// A grain that moves leaves its cell empty: no other grain moves into it.
pub proof fn law_moving_grain_leaves(g: Seq<Seq<u8>>, f: Seq<Seq<bool>>, i: int, j: int)
    requires
        is_sand_grid(g),
        covers(f, height(g), width(g)),
        in_grid(g, i, j),
        g[i][j] > 0,
        fall_target(g, f, i, j) != (i, j),
    ensures
        next_grid(g, f)[i][j] == 0,
{
    law_step_is_local(g, f);
    assert(next_grid(g, f)[i][j] == local_next(g, f, i, j));
    if in_grid(g, i - 1, j + 1) {
        lemma_target_local(g, f, i - 1, j + 1);
    }
    if in_grid(g, i - 1, j) {
        lemma_target_local(g, f, i - 1, j);
    }
    if in_grid(g, i - 1, j - 1) {
        lemma_target_local(g, f, i - 1, j - 1);
    }
}

/// A grain above an empty cell falls: that cell holds a grain afterwards.
pub proof fn law_grain_falls_into_gap(g: Seq<Seq<u8>>, f: Seq<Seq<bool>>, i: int, j: int)
    requires
        is_sand_grid(g),
        covers(f, height(g), width(g)),
        in_grid(g, i, j),
        i < height(g) - 1,
        g[i][j] > 0,
        g[i + 1][j] == 0,
    ensures
        next_grid(g, f)[i + 1][j] > 0,
        next_grid(g, f)[i][j] == 0,
{
    law_step_is_local(g, f);
    assert(next_grid(g, f)[i + 1][j] == local_next(g, f, i + 1, j));
    law_moving_grain_leaves(g, f, i, j);
}

/// A grain whose cell below is taken looks first below to the side its own
/// coin names (right when `f[i][j]` is set, left otherwise): when that cell
/// is in the grid (the wall columns included) and empty, the grain leaves
/// its cell and that cell holds a grain afterwards.
pub proof fn law_blocked_grain_follows_its_coin(
    g: Seq<Seq<u8>>,
    f: Seq<Seq<bool>>,
    i: int,
    j: int,
)
    requires
        is_sand_grid(g),
        covers(f, height(g), width(g)),
        in_grid(g, i, j),
        i + 1 < height(g),
        g[i][j] > 0,
        g[i + 1][j] != 0,
        0 <= (if f[i][j] { j + 1 } else { j - 1 }) < width(g),
        g[i + 1][if f[i][j] { j + 1 } else { j - 1 }] == 0,
    ensures
        next_grid(g, f)[i][j] == 0,
        next_grid(g, f)[i + 1][if f[i][j] { j + 1 } else { j - 1 }] > 0,
{
    let d = if f[i][j] { j + 1 } else { j - 1 };
    law_step_is_local(g, f);
    law_moving_grain_leaves(g, f, i, j);
    assert(next_grid(g, f)[i + 1][d] == local_next(g, f, i + 1, d));
}

/// A grain whose cell below is taken and whose first diagonal cell (the one
/// its coin names) is outside the grid or taken slides to the other diagonal
/// cell below when that one is in the grid and empty.
pub proof fn law_blocked_grain_tries_the_other_side(
    g: Seq<Seq<u8>>,
    f: Seq<Seq<bool>>,
    i: int,
    j: int,
)
    requires
        is_sand_grid(g),
        covers(f, height(g), width(g)),
        in_grid(g, i, j),
        i + 1 < height(g),
        g[i][j] > 0,
        g[i + 1][j] != 0,
        !(0 <= (if f[i][j] { j + 1 } else { j - 1 }) < width(g)) || g[i + 1][if f[i][j] {
            j + 1
        } else {
            j - 1
        }] != 0,
        0 <= (if f[i][j] { j - 1 } else { j + 1 }) < width(g),
        g[i + 1][if f[i][j] { j - 1 } else { j + 1 }] == 0,
    ensures
        next_grid(g, f)[i][j] == 0,
        next_grid(g, f)[i + 1][if f[i][j] { j - 1 } else { j + 1 }] > 0,
{
    let e = if f[i][j] { j - 1 } else { j + 1 };
    law_step_is_local(g, f);
    law_moving_grain_leaves(g, f, i, j);
    assert(next_grid(g, f)[i + 1][e] == local_next(g, f, i + 1, e));
}

/// When a grain falls straight into an empty cell and the grain to its
/// right, blocked below, slides into the same cell, the later one in
/// row-major order (the one from the upper right) keeps the cell.
pub proof fn law_later_grain_keeps_a_shared_cell(
    g: Seq<Seq<u8>>,
    f: Seq<Seq<bool>>,
    i: int,
    j: int,
)
    requires
        is_sand_grid(g),
        covers(f, height(g), width(g)),
        in_grid(g, i, j),
        in_grid(g, i, j + 1),
        i + 1 < height(g),
        g[i][j + 1] > 0,
        g[i + 1][j + 1] != 0,
        !f[i][j + 1],
        g[i + 1][j] == 0,
    ensures
        next_grid(g, f)[i + 1][j] == g[i][j + 1],
{
    law_step_is_local(g, f);
    assert(next_grid(g, f)[i + 1][j] == local_next(g, f, i + 1, j));
}

/// A grain with no empty cell below it, straight or diagonal within the
/// grid, keeps its cell and its state.
pub proof fn law_fully_blocked_grain_stays(g: Seq<Seq<u8>>, f: Seq<Seq<bool>>, i: int, j: int)
    requires
        is_sand_grid(g),
        covers(f, height(g), width(g)),
        in_grid(g, i, j),
        i + 1 < height(g),
        g[i][j] > 0,
        g[i + 1][j] != 0,
        j - 1 >= 0 ==> g[i + 1][j - 1] != 0,
        j + 1 < width(g) ==> g[i + 1][j + 1] != 0,
    ensures
        next_grid(g, f)[i][j] == g[i][j],
{
    law_resting_grain_stays(g, f, i, j);
}

/// `g` and `h` have the same shape and the same empty cells.
pub open spec fn same_empty_cells(g: Seq<Seq<u8>>, h: Seq<Seq<u8>>) -> bool {
    &&& is_rect(h, height(g), width(g))
    &&& forall|i: int, j: int| in_grid(g, i, j) ==> (#[trigger] g[i][j] == 0 <==> h[i][j] == 0)
}

/// Where a grain goes depends only on which cells are empty, never on states.
proof fn lemma_target_ignores_states(
    g: Seq<Seq<u8>>,
    h: Seq<Seq<u8>>,
    f: Seq<Seq<bool>>,
    a: int,
    b: int,
)
    requires
        is_sand_grid(g),
        same_empty_cells(g, h),
        covers(f, height(g), width(g)),
        in_grid(g, a, b),
    ensures
        fall_target(g, f, a, b) == fall_target(h, f, a, b),
{
    if a + 1 < height(g) {
        assert(g[a + 1][b] == 0 <==> h[a + 1][b] == 0);
        if b - 1 >= 0 {
            assert(g[a + 1][b - 1] == 0 <==> h[a + 1][b - 1] == 0);
        }
        if b + 1 < width(g) {
            assert(g[a + 1][b + 1] == 0 <==> h[a + 1][b + 1] == 0);
        }
    }
    assert(h[0].len() == g[0].len());
}

/// The motion of the sand depends only on which cells hold a grain and on
/// the coins, not on the states of the grains: two grids with the same empty
/// cells step to grids with the same empty cells.
pub proof fn law_motion_ignores_states(g: Seq<Seq<u8>>, h: Seq<Seq<u8>>, f: Seq<Seq<bool>>)
    requires
        is_sand_grid(g),
        same_empty_cells(g, h),
        covers(f, height(g), width(g)),
    ensures
        same_empty_cells(next_grid(g, f), next_grid(h, f)),
{
    assert(h[0].len() == g[0].len());
    law_step_is_local(g, f);
    law_step_is_local(h, f);
    let n = next_grid(g, f);
    let m = next_grid(h, f);
    assert forall|i: int, j: int| in_grid(n, i, j) implies (#[trigger] n[i][j] == 0 <==> m[i][j]
        == 0) by {
        assert(in_grid(g, i, j));
        assert(in_grid(h, i, j));
        assert(n[i][j] == local_next(g, f, i, j));
        assert(m[i][j] == local_next(h, f, i, j));
        lemma_target_ignores_states(g, h, f, i, j);
        assert(g[i][j] == 0 <==> h[i][j] == 0);
        if in_grid(g, i - 1, j - 1) {
            lemma_target_ignores_states(g, h, f, i - 1, j - 1);
            assert(g[i - 1][j - 1] == 0 <==> h[i - 1][j - 1] == 0);
        }
        if in_grid(g, i - 1, j) {
            lemma_target_ignores_states(g, h, f, i - 1, j);
            assert(g[i - 1][j] == 0 <==> h[i - 1][j] == 0);
        }
        if in_grid(g, i - 1, j + 1) {
            lemma_target_ignores_states(g, h, f, i - 1, j + 1);
            assert(g[i - 1][j + 1] == 0 <==> h[i - 1][j + 1] == 0);
        }
    }
}

/// Sand does not appear from nowhere: a cell that holds a grain after a step
/// holds the state of a grain that was on it, or one row above it and at
/// most one column aside, and that moved there.
pub proof fn law_no_sand_from_nowhere(g: Seq<Seq<u8>>, f: Seq<Seq<bool>>, i: int, j: int)
    requires
        is_sand_grid(g),
        covers(f, height(g), width(g)),
        in_grid(g, i, j),
        next_grid(g, f)[i][j] > 0,
    ensures
        exists|a: int, b: int|
            #![trigger g[a][b]]
            moves_to(g, f, a, b, i, j) && g[a][b] == next_grid(g, f)[i][j] && (i - 1 <= a <= i)
                && (j - 1 <= b <= j + 1),
{
    law_step_is_local(g, f);
    assert(next_grid(g, f)[i][j] == local_next(g, f, i, j));
}

/// The cells of `g` that hold a grain.
pub open spec fn grains(g: Seq<Seq<u8>>) -> Set<(int, int)> {
    Set::new(|p: (int, int)| in_grid(g, p.0, p.1) && g[p.0][p.1] > 0)
}

/// The cells of a grid of `h` rows of `w` columns.
pub open spec fn cells(h: int, w: int) -> Set<(int, int)> {
    Set::new(|p: (int, int)| 0 <= p.0 < h && 0 <= p.1 < w)
}

/// A grid has finitely many cells.
pub proof fn lemma_cells_finite(h: nat, w: nat)
    ensures
        cells(h as int, w as int).finite(),
    decreases h,
{
    if h == 0 {
        assert(cells(0, w as int) =~= Set::empty());
    } else {
        lemma_cells_finite((h - 1) as nat, w);
        vstd::set_lib::lemma_int_range(0, w as int);
        let last_row = vstd::set_lib::set_int_range(0, w as int).map(|c: int| ((h - 1) as int, c));
        vstd::set_lib::set_int_range(0, w as int).lemma_map_finite(|c: int| ((h - 1) as int, c));
        assert forall|p: (int, int)| #[trigger] cells(h as int, w as int).contains(p) implies cells(
            (h - 1) as int,
            w as int,
        ).union(last_row).contains(p) by {
            if p.0 == h - 1 {
                assert(vstd::set_lib::set_int_range(0, w as int).contains(p.1));
            }
        }
        assert(cells(h as int, w as int) =~= cells((h - 1) as int, w as int).union(last_row));
    }
}

/// Sand is never created: a step leaves at most as many grains as there were.
/// (Two grains that land on one cell become one.)
pub proof fn law_sand_is_never_created(g: Seq<Seq<u8>>, f: Seq<Seq<bool>>)
    requires
        is_sand_grid(g),
        covers(f, height(g), width(g)),
    ensures
        grains(g).finite(),
        grains(next_grid(g, f)).finite(),
        grains(next_grid(g, f)).len() <= grains(g).len(),
{
    law_step_is_local(g, f);
    let n = next_grid(g, f);
    lemma_cells_finite(g.len(), g[0].len());
    assert(grains(g).subset_of(cells(height(g), width(g))));
    vstd::set_lib::lemma_set_subset_finite(cells(height(g), width(g)), grains(g));
    let to = |p: (int, int)| fall_target(g, f, p.0, p.1);
    let landed = grains(g).map(to);
    vstd::set_lib::lemma_map_size_bound(grains(g), landed, to);
    assert forall|p: (int, int)| #[trigger] grains(n).contains(p) implies landed.contains(p) by {
        law_no_sand_from_nowhere(g, f, p.0, p.1);
        let (a, b) = choose|a: int, b: int|
            #![trigger g[a][b]]
            moves_to(g, f, a, b, p.0, p.1) && g[a][b] == n[p.0][p.1] && (p.0 - 1 <= a <= p.0) && (
            p.1 - 1 <= b <= p.1 + 1);
        assert(grains(g).contains((a, b)));
        assert(to((a, b)) == p);
    }
    vstd::set_lib::lemma_set_subset_finite(landed, grains(n));
    vstd::set_lib::lemma_len_subset(grains(n), landed);
}

} // verus!
