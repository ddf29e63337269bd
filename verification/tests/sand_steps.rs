use falling_sand::render::render_cells;
use falling_sand::sand::FallingSandApp;
use falling_sand::NELEMENTS;

fn no_flips() -> Vec<Vec<bool>> {
    vec![vec![false; NELEMENTS]; NELEMENTS]
}

fn all_flips() -> Vec<Vec<bool>> {
    vec![vec![true; NELEMENTS]; NELEMENTS]
}

/// The cells that hold a grain, with their states, in row-major order.
fn grains(app: &FallingSandApp) -> Vec<(usize, usize, u8)> {
    let mut out = Vec::new();
    for (r, row) in app.data().iter().enumerate() {
        for (c, &v) in row.iter().enumerate() {
            if v != 0 {
                out.push((r, c, v));
            }
        }
    }
    out
}

fn app_with(cells: &[(usize, usize, u8)]) -> FallingSandApp {
    let mut app = FallingSandApp::default();
    for &(r, c, v) in cells {
        app.set_cell(r, c, v);
    }
    app
}

#[test]
fn create_data_is_an_empty_square() {
    let d = FallingSandApp::create_data();
    assert_eq!(d.len(), 30);
    assert!(d.iter().all(|row| row.len() == 30 && row.iter().all(|&v| v == 0)));
}

#[test]
fn default_grid_is_empty_and_square() {
    let app = FallingSandApp::default();
    assert_eq!(app.nrows(), 30);
    assert_eq!(app.ncols(), 30);
    assert!(grains(&app).is_empty());
}

#[test]
fn inside_rows_and_cols_check_the_bounds() {
    let app = FallingSandApp::default();
    assert!(app.inside_cols(0));
    assert!(app.inside_cols(29));
    assert!(!app.inside_cols(30));
    assert!(app.inside_rows(29));
    assert!(!app.inside_rows(30));
    assert!(!app.inside_rows(usize::MAX));
}

#[test]
fn set_cell_writes_one_cell() {
    let app = app_with(&[(3, 7, 1)]);
    assert_eq!(app.row(3)[7], 1);
    assert_eq!(grains(&app), vec![(3, 7, 1)]);
}

#[test]
fn clear_data_empties_the_grid() {
    let mut app = app_with(&[(0, 0, 1), (29, 29, 4), (12, 5, 1)]);
    app.clear_data();
    assert!(grains(&app).is_empty());
    assert_eq!(app.nrows(), 30);
    assert_eq!(app.ncols(), 30);
}

#[test]
fn grain_falls_one_row_when_below_is_empty() {
    let mut app = app_with(&[(0, 5, 1)]);
    app.next_step(&no_flips());
    assert_eq!(grains(&app), vec![(1, 5, 1)]);
    app.next_step(&all_flips());
    assert_eq!(grains(&app), vec![(2, 5, 1)]);
}

#[test]
fn grain_on_the_bottom_row_stays() {
    let mut app = app_with(&[(29, 3, 2)]);
    app.next_step(&no_flips());
    assert_eq!(grains(&app), vec![(29, 3, 2)]);
}

#[test]
fn blocked_grain_slides_left_without_flip() {
    // (11, 5) holds a grain on the bottom of a pile: the grain above slides.
    let mut app = app_with(&[(10, 5, 1), (29, 5, 1)]);
    for _ in 0..18 {
        app.next_step(&no_flips());
    }
    // The upper grain reaches row 28 on top of the resting one.
    assert_eq!(grains(&app), vec![(28, 5, 1), (29, 5, 1)]);
    app.next_step(&no_flips());
    assert_eq!(grains(&app), vec![(29, 4, 1), (29, 5, 1)]);
}

#[test]
fn blocked_grain_slides_right_with_flip() {
    let mut app = app_with(&[(28, 5, 1), (29, 5, 1)]);
    app.next_step(&all_flips());
    assert_eq!(grains(&app), vec![(29, 5, 1), (29, 6, 1)]);
}

#[test]
fn blocked_grain_tries_the_other_side() {
    // Below left is taken, so the grain slides below right.
    let mut app = app_with(&[(28, 5, 1), (29, 4, 1), (29, 5, 1)]);
    app.next_step(&no_flips());
    assert_eq!(grains(&app), vec![(29, 4, 1), (29, 5, 1), (29, 6, 1)]);
}

#[test]
fn fully_blocked_grain_stays() {
    let mut app = app_with(&[(28, 5, 7), (29, 4, 1), (29, 5, 1), (29, 6, 1)]);
    app.next_step(&no_flips());
    assert_eq!(grains(&app), vec![(28, 5, 7), (29, 4, 1), (29, 5, 1), (29, 6, 1)]);
}

#[test]
fn grain_at_the_left_edge_cannot_slide_left() {
    let mut app = app_with(&[(28, 0, 1), (29, 0, 1)]);
    app.next_step(&no_flips());
    assert_eq!(grains(&app), vec![(29, 0, 1), (29, 1, 1)]);
}

#[test]
fn grain_at_the_right_edge_cannot_slide_right() {
    let mut app = app_with(&[(28, 29, 1), (29, 29, 1)]);
    app.next_step(&all_flips());
    assert_eq!(grains(&app), vec![(29, 28, 1), (29, 29, 1)]);
}

#[test]
fn later_grain_wins_a_shared_cell() {
    // (0, 4) falls to (1, 4); (0, 5) is blocked by (1, 5) and slides to
    // (1, 4) too, after it in row-major order: its state is kept there.
    let mut app = app_with(&[(0, 4, 2), (0, 5, 5), (1, 5, 3)]);
    app.next_step(&no_flips());
    assert_eq!(grains(&app), vec![(1, 4, 5), (2, 5, 3)]);
}

#[test]
fn empty_grid_stays_empty() {
    let mut app = FallingSandApp::default();
    app.next_step(&all_flips());
    assert!(grains(&app).is_empty());
}

#[test]
fn cleared_grid_stays_empty_after_a_step() {
    let mut app = app_with(&[(4, 4, 1), (5, 4, 1)]);
    app.clear_data();
    app.next_step(&no_flips());
    assert!(grains(&app).is_empty());
}

#[test]
fn sand_count_never_grows() {
    let mut app = app_with(&[(0, 4, 2), (0, 5, 5), (1, 5, 3), (10, 10, 1), (29, 0, 1)]);
    let mut count = grains(&app).len();
    for k in 0..40 {
        let flips = if k % 2 == 0 { no_flips() } else { all_flips() };
        app.next_step(&flips);
        let now = grains(&app).len();
        assert!(now <= count);
        count = now;
    }
    assert_eq!(count, 4);
}

#[test]
fn grains_never_rise() {
    let mut app = app_with(&[(3, 3, 1), (4, 3, 1), (5, 3, 1), (6, 3, 1)]);
    let before = grains(&app);
    app.next_step(&no_flips());
    for &(r, c, _) in &grains(&app) {
        assert!(before
            .iter()
            .any(|&(a, b, _)| (a == r || a + 1 == r) && (b + 1 >= c && b <= c + 1)));
    }
}

#[test]
fn drawn_cells_are_the_cells_in_state_one() {
    let app = app_with(&[(2, 9, 1), (0, 3, 1), (2, 1, 4), (29, 29, 1)]);
    assert_eq!(app.drawn_cells(), vec![(0, 3), (2, 9), (29, 29)]);
}

#[test]
fn render_cells_uses_the_two_symbols() {
    let app = app_with(&[(0, 1, 1), (1, 0, 9)]);
    let out = render_cells(app.data(), 2, 3, '.', '+');
    assert_eq!(out, vec![vec!['.', '+', '.'], vec!['+', '.', '.']]);
    let small = vec![vec![0u8, 3], vec![1, 0]];
    assert_eq!(render_cells(&small, 2, 2, ' ', '*'), vec![vec![' ', '*'], vec!['*', ' ']]);
}
