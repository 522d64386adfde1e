# expecters

Build complex, self-describing assertions by chaining together reusable
modifiers and a final assertion. The subject flows from the root of the chain
through every modifier to the assertion; the outcome flows back, carrying a
context that records the execution path, so that a failure report shows every
step, what it received and what it annotated.

The library in `src/` is written in Verus and every function in it is
verified against its contract:

- `context`, `output`: the execution path, outputs and errors, and the
  failure report (`AssertionError::to_string` is proved to produce exactly the
  text that `output::report` describes).
- `assertion`: the `Assertion` and `AssertionModifier` traits and the builder.
- `general`, `iterators`, `functions`: the assertions and modifiers
  (`not`, `map`, `to_equal`, comparisons, `all`/`any`, `count`, `nth`, `zip`,
  `as_utf8`, `to_contain_exactly`, `when_called_with`, ...).
- `diff`, `text`, `metadata`, `vecs`: line diffs, text building, annotated
  values and source locations.
- `futures`: the decisions taken by asynchronous assertions once the values
  they wait for are ready.
- `laws`: properties of the library as a whole (inversion, merging, exact
  matching, execution paths).

`app/` holds what is not verified: futures and asynchronous readers, catching
panics, floating-point comparisons, and formatting values with `Debug` and
`Display`.
