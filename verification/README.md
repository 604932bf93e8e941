# pecos

A quantum error-correction simulation toolkit whose core is written and proved in Verus.

## Layout

- `src/` — the verified library.
  - `angle`, `turn_word`, `angle_parse`, `angle_laws`: fixed-point angles (fractions of a
    turn held in an unsigned word), their wrapping arithmetic, the reading of angles
    written in radians, and the algebraic laws of the arithmetic.
  - `phase`, `sign`, `pauli`, `pauli_stabilizer_string`, `bits`, `vec_set`: phases and
    signs, Pauli operators held as sets or bitmaps, stabilizer strings, and the laws of
    their products and commutation.
  - `qsim`: the Clifford gate set, a Pauli-frame propagator with the conjugation table of
    every gate proved, and the dispatch of named gates to a simulator.
  - `types`, `engine_types`, `engines`, `command_queue`, `noise`, `shot_statistics`: the
    commands exchanged between engines, shot results and their per-key counts, a
    Clifford engine, a first-in first-out command queue and depolarizing-noise injection.
  - `protocol`, `protocol_laws`: the line protocol between engines (writing commands,
    reading replies and results) and its round-trip laws.
  - `phir`, `program_kind`: the PHIR/JSON program interpreter as a state machine, and the
    choice of program kind.
  - `text`, `text_map`: text utilities and a map keyed by text in key order.
  - `gate`: the named gates, with rotation angles held as float bits.
- `tests/` — tests run against the compiled library.
- `app/` — the command-line program and everything that needs I/O, threads, floating
  point or outside crates (JSON reading, processes, shared memory, the state-vector
  simulator).
