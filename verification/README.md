# postgres_thread_store

The decisions of a PostgreSQL-backed thread store for remote workspaces,
verified with Verus.

- `src/` is the verified library: how session sources are keyed and which
  legacy keys a listing filter accepts (`session_source`, `json`, `keys`),
  listing plans, pages, cursors and search (`listing`, `cursor`), metadata
  patches and the stored form of threads (`thread`), item sequence numbers
  (`append`), store setup and refusals (`store`, `error`), and
  remote-control enrollments (`enrollment`).
- `app/` runs the store against a database with `sqlx`: it reads the
  environment, issues the queries, converts rows and JSON, and hands every
  decision to the library.
- `tests/` exercises the library on concrete values.
