# sequences_rs

A trainer for number-sequence questions of the kind asked in quantitative
trading interviews: the program shows the first terms of a sequence and asks
for the next one, against a clock.

The library under `src/` is verified with Verus:

- `sequences/` — the nine families (arithmetic, geometric, quadratic,
  Fibonacci, Tribonacci, triangular numbers, squares, cubes, two interleaved
  arithmetic sequences). Each family is drawn from exact parameters
  (`from_params`, with an exact contract) or at random (`generate`, whose
  contract says which parameter ranges the draw comes from). Proof functions
  state each family's rule: constant difference, constant ratio, constant
  second or third differences, sums of the previous terms.
- `config.rs` — difficulty, sequence length, time limit, presets.
- `app.rs` — the drill's state: configuration cursor and toggles, questions,
  answers, the tally per family, and the invariant every operation keeps.
- `controls.rs` — what each key does on each screen.
- `decimal.rs`, `history.rs` — reading and writing integers in base ten the
  way `str::parse` does, and the comma-separated history line, with the proof
  that a written line reads back as the entry it records.
- `random.rs`, `clock.rs`, `text.rs` — the trusted wrappers around `rand`,
  the system clocks and a few `String` methods.

`app/` holds the terminal program (crossterm and ratatui) and the history
file on disk. `tests/` exercises the library.
