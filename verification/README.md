# cesso

A bitboard chess engine as a Verus library, with a UCI front end.

- `src/` — the verified library: board model and FEN, move encoding and
  legal move generation, copy-make move application with its incremental
  Zobrist hash, hand-crafted and NNUE evaluation, the alpha-beta search with
  its tables (transposition, history, killers, continuation and correction
  history), time limits and UCI command parsing. The contracts speak over
  mathematical models of the data; what rests on the clock, on atomics
  shared between threads or on a search cut short by them is stated only as
  far as it is independent of those.
- `tests/` — tests of the library on concrete positions.
- `app/` — the UCI loop: reading commands, the floating-point time
  allocation, printing search reports, and the Lazy SMP threads.
