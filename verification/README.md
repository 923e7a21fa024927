# tremor_script (module system)

The module system of the tremor scripting language, written in Verus and
verified: module identities (the SHA-512 digest of a module's source), the
per-module tables of connectors, pipelines, windows, scripts, operators,
flows, constants and functions, loading a module statement by statement,
and the module manager with its loader, which loads each source once and
reports a module that uses itself.

- `src/` — the verified library. `named.rs` is the table behind each
  kind of item: entries by name, with the names in the order first added. `loader.rs` runs a whole load: it asks its
  caller for files and parsed statements and decides everything else.
- `tests/` — tests, with an in-memory file system standing in for files.
- `app/` — the process-wide manager behind a lock, and the file-system part
  of loading (finding and reading module files).
