# igris_memory

Persistent, searchable memory for AI agents: observations, sessions, an
entity graph and a code graph, stored in SQLite. The library in `src/` is
written in Verus and verified; `app/` is the program around it (the MCP
server, the HTTP API, the command line, file and network I/O, and the
floating-point vector code).

## Layout

- `src/text.rs`, `src/validation.rs`, `src/topic.rs`: redaction of
  `<private>` blocks, alias and slug normalization, content hashing, input
  rules, topic keys — each against an exact spec function.
- `src/sql.rs`: the engine boundary. The few SQLite calls sit behind
  trusted wrappers; values cross it as plain `SqlValue`s.
- `src/db/`: the store. Each operation is built from three verified parts:
  - a *plan*: the statement parameters, built by a function whose contract
    fixes every parameter (for example `insert_params` binds the redacted
    title and content and the hash of the redacted content);
  - the engine call;
  - an *interpretation*: a function from the rows the engine returns to
    the result, with an exact contract (`live_observations`,
    `search_results_from_rows`, `entity_by_id`, `observation_by_id`, ...).
  Every write that reaches the engine is recorded in a ghost log of
  statements, parameters and changed-row counts (`Database::log`), so each
  writing operation states exactly which statements it issued, in which
  order and with which parameters (a merge copies aliases and mentions to
  the target and repoints edges; an import writes its links with mapped
  ids and counts only the rows the engine reports as changed).
  The store's own contracts state what holds whatever the engine answers:
  validation errors exactly when the input is refused, results that are
  the interpretation of some answer, bounds, and the graph laws (a path
  is a walk of stored edges; neighbours are found hop by hop).
- `src/codegraph/`: languages, the extractor registry (a lookup answers
  the extractor last registered for the language), the tree-sitter query
  runner (its result is the fold of the query's matches), and the indexer.
- `src/embed.rs`: the hashing embedder's integer bucket sums, the text
  handed to embedders (`embedding_input`, redacted), the Ollama endpoint.
- `src/sync.rs`: chunking of exports for directory sync.
- `tests/`: the test suite, run against the compiled library.

## Building

The crate is checked with Verus; `app/` is ordinary Rust that depends on
the library.
