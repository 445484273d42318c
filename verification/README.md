# storage

The table of contents of a vector storage, verified with Verus.

- `src/` is the library. It keeps the collections by name and the aliases, resolves names, and
  decides step by step how collections are made, changed and deleted, how aliases change, and how
  a snapshot is applied. Every function is verified against its contract, and nothing is trusted.
  The files named `laws` state what holds of whole operations.
- `app/` puts the library to work with locks, runtimes and directories. The collections come in
  through the trait `CollectionService`.
- `tests/` run the library.
