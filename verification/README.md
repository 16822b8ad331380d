# aegis

A distributed KV-cache scheduler for inference clusters: a block allocator,
ownership tracking across nodes, node selection, a quorum consensus tracker with a
replicated log and a deterministic state machine, the RPC handlers around them, and
span and metric bookkeeping.

- `src/` is the library, verified with Verus. Each public function states in its
  contract what it returns and how it changes its receiver, over views of the
  types (`Seq`, `Map`, `Set`); proof functions state the laws that span several
  calls (quorum intersection, replay determinism, idempotent application, the
  canonical order of the ownership digest, round trips of trace headers).
- `app/` is the node binary and what cannot be verified: configuration from the
  environment, the network calls and their awaiting, files (write-ahead log and
  snapshots), Prometheus and logging setup, JSON export, floating-point ratios and
  scores, and the random verdicts of the speculative-decoding simulation.
- `tests/` exercises the library from outside.
