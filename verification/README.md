# grid_adequacy

The integer and text rules of a GB electricity-adequacy simulator, proved
with Verus: merit-order stacks and the store consultation order, the
ASHP/GSHP/district heating-mix simplex, grouping of interconnector links
into borders, the rolling-horizon LP window plan and size guard, sweep
grids and their validation, per-year batch selection, and the cost
stack's publish gates and costed-coverage statement.

- `src/` — the verified library (every function carries a contract; the
  cross-function laws are public proof functions).
- `tests/` — tests on concrete values.
- `app/` — ordinary Rust around the library: TOML sweep specifications,
  floating-point value lists and share views, and the sweep and per-year
  batch runners. Order-preserving parallel evaluation (rayon) is in
  `src/evaluate.rs`, behind one trusted wrapper.

Not in this crate: the floating-point simulation engines themselves —
chronological and multi-zone dispatch, flow equalisation, the
perfect-foresight LP, storage bisection, the cost and pricing
arithmetic, import conventions and availability models. They are built
on the unit, trace and scenario types of the `grid_core` workspace crate,
which this crate does not depend on, so neither `src/` nor `app/` holds
them; the rules above are the decisions those engines make on integers
and names.
