# nnuebie

An NNUE evaluator for chess (a big and a small network over king-bucketed,
mirrored piece-square features, incrementally updated accumulators with a
refresh cache per king square) together with the rules of an alpha-beta search that uses it, written
in Verus and verified.

## Layout

- `src/` — the verified library.
  - `loader`, `network`, `layout` — decoding network files (LEB128 blocks,
    hashes, weight re-layout) into plain vectors.
  - `features`, `accumulator`, `update`, `finny`, `context`, `refresh` — feature
    indices, full and incremental accumulator updates, the refresh cache and
    the per-move accumulator stack.
  - `transform`, `layers`, `pipeline`, `eval`, `evaluate` — the forward pass
    and the final raw evaluation. `evaluate_raw_output` is proved to return
    what full refreshes of the current board give, whatever moves led there.
  - `search` — limits and deadlines, score encoding, pruning and reduction
    rules, the staged move picker, and the root, node and quiescence searches
    as state machines that ask their caller for board changes, move lists,
    evaluations and table accesses. Their contracts are per step: what each
    request is for each stage and event, how a returned child score is folded
    into the move loop, what is stored and returned when the loop ends, the
    stand-pat floor of quiescence, the picker's stage order and that it ends
    only with each loaded move yielded, and the root's best result changing
    only when an iteration completes. Over whole runs, a node's moves made
    and taken back are proved to balance, and a search's result carries the
    number of iterations it completed. The recursion itself, and the
    values the caller reports, live outside the library.
- `tests/` — tests run against the compiled library.
- `app/` — the engine-facing glue: reading network files, converting the
  engine core's positions and moves, centipawn conversion (floating point),
  and the loops that run the search machines against the engine's board, move
  generator, transposition table and history. It depends on the engine's own
  crates (`oopsmate_core`, `oopsmate_eval`, `oopsmate_memory`,
  `oopsmate_movegen`), which are not published.
