# MindCore

A memory engine for AI agent applications: persistent storage, keyword and
vector search, graph relationships, consolidation, cognitive decay and
token-budget context assembly, with a LongMemEval benchmark harness.

## Layout

- `src/` is the verified library. Every function there carries a contract
  that Verus proves: memory types and relation types, pruning and
  deduplication decisions, content hashing, FTS5 query preparation, query
  analysis for rank fusion, temporal query expansion, context packing and
  rendering, SQLCipher key encoding, schema version planning, and the
  benchmark's dataset model, context building, prompts, verification,
  judging and metric counts. Public proof functions state the laws the
  library keeps (round trips, budget bounds, what pruning spares, what the
  per-type counts add up to, ...).
- `tests/` exercises the library on concrete values.
- `app/` is the benchmark program and the SQLite-backed engine around the
  library: database access, floating-point scoring and embeddings, network
  calls, files and the command line.
