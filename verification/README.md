# kontrocode

The decision-making core of a research-first coding agent, verified with
Verus: what a request asks for, which sources to research, how results are
cached and reported, how a run proceeds step by step, how models are tried
and fallen back from, what the agent remembers about its user and how that
memory is shown, which shell commands and paths the tools refuse, and the
diff, planning and completion logic the agent uses on code.

## Layout

- `src/` — the verified library. Every function carries a contract; the
  laws that relate several functions are public proof functions
  (`lemma_*`). Calls into other crates and into parts of `std` that vstd
  does not specify sit behind small trusted wrappers whose contracts are
  stated next to them.
- `tests/` — tests of the library on concrete values.
- `app/` — a terminal front end around the library: file, process and
  network access, the Redis stores, the HTTP providers, serde copies of the library's types,
  and the scoring that works in floating point.

## Checking

`src/` is verified by Verus; the tests and the front end build with the
ordinary Rust toolchain against the library.
