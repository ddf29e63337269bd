# falling_sand

A falling-sand cellular automaton on a 30 by 30 grid, verified with Verus.

- `src/model.rs`: the grid as nested sequences and one step of the automaton
  (`fall_target`, `settle`, `next_grid`).
- `src/sand.rs`: the executable grid `FallingSandApp` and its operations, each
  with a contract over the model.
- `src/laws.rs`: proofs about one step of the automaton.
- `src/render.rs`: a grid turned into rows of symbols.
- `app/lib.rs`: the egui window, the mouse, the random coins (one `f64` draw
  per grain) and the console output.
