# ministore

An embedded document search engine on SQLite and FTS5: documents with a
`path` and typed fields (text, keyword, number, date, bool), a query language
that mixes full-text terms with structured filters, ranked and paginated
search, statistics and value discovery.

## Layout

- `src/` — the library, written in Verus and verified. It holds everything the
  engine decides: the schema and its rules, the query lexer, parser,
  normalizer and SQL planner, document extraction for each index table,
  document-frequency bookkeeping, cursors (hashing, encoding, stored handles),
  page shaping and output formatting, statistics and discovery queries,
  schema changes, and the state of a batch writer. Calls into `sha2`,
  `base64`, `chrono`, `regex`, `rand` and `serde_json` go through small
  trusted wrappers whose contracts state what those crates document.
  `src/laws.rs` states the properties that relate several operations.
- `app/` — ordinary Rust around the library: the SQLite connection and
  transactions (`rusqlite`), `serde` forms of the schema and of cursor
  positions, and the `Index`, `Batch` and `BatchWriter` types that run the
  statements the library plans.
- `tests/` — tests of the library on concrete values.
