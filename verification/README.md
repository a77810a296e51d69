# iceberg_transaction

The part of a table format's transactions that produces snapshots and compacts
manifests, verified with Verus.

- `src/` decides: which manifests to rewrite, which entries go into which new
  manifest, what row ids they carry, how files are named, what the summary says,
  and what is committed. Every function has its contract there. What holds of
  commits and rewrites as a whole is stated and proved in `commit_laws` and
  `rewrite_laws`.
- `app/` carries the decisions out: it reads and writes files, concurrently, and
  hands what came of it back to the library.
- `tests/` runs the library on concrete values, and whole commits against a table
  held in memory.

A commit is a chain of steps (`commit`): each takes the outcome of the work before
it and says what is to be done next. A rewrite (`rewrite_manifests`) hands out one
manifest to be written after the other and takes each back as written.

UUIDs are drawn and written by the `uuid` crate, and the time of a commit comes
from `chrono`. What is trusted of these calls is stated in `identity`.
