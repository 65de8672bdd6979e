# pictorus_core_blocks

Core signal-processing blocks of the Pictorus runtime, written in Verus. Each
block is a small state machine driven once per tick with its parameters, an
execution context (times in nanoseconds) and its inputs; its contract states
the output and the new state.

Layout:

- `src/` — the verified library: the signal data model (`scalar`, `matrix`,
  `dmatrix`), the execution context (`context`), byte-level field encoding
  (`byte_data`, which calls the `byteorder` crate through wrapper functions
  whose contracts are assumed rather than proved), text
  helpers (`text`, `escapes`), staleness tracking (`validity`), and the blocks
  that work on integers, booleans and bytes (`*_block`), plus the plain-logic
  parts of the generated applications (`counter_app`, `cras_app`).
- `tests/` — scenario tests for every block and tests of the laws on
  concrete values.
- `app/` — the floating-point blocks (aggregate, gain, exponent, filters,
  integral, derivative, cross product, determinant, …), the JSON writer of
  the JSON dump block (miniserde), and conversions between `f64` signals and
  the library's integer field values.
