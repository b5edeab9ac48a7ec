# pg_iceberg_am

The decisions of a PostgreSQL access method for Apache Iceberg tables, written
in Verus and proved against their contracts.

- `src/catalog` keeps what a transaction changes: file changes and their order,
  savepoints, row owners, schema and property changes, what of them is
  committed, and how a table's commit goes on when other transactions move the
  table first. It also decides on rows of the extension's catalogs: metadata
  locations, maintenance schedules and their outcomes.
- `src/customscan` decides what a scan takes over: which comparisons mean the
  same in the table format, how they are translated, which columns are read,
  and in which order the parts of a scan are opened.
- `src/engine` holds what scans and writes share: row identities, cursors,
  projections and the tasks of a change.
- `src/error.rs` maps every failure to its SQLSTATE.

Statements that relate several functions (such as that a transaction commits
what its own readers saw, or that undoing a savepoint restores a table) are
public proof functions at the end of the files they concern.

The library takes what the server and the storage layer answer as plain values.
`app/` asks them: it drives commits, scans, row changes, maintenance and DDL
through traits, and turns failures into messages.

Not proved, and named where they stand: how `roaring::RoaringBitmap` keeps a
set of numbers, which numbers `rust_decimal` reads from a text, and how std
writes a list of strings for debugging.
