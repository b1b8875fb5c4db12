# buckets

Throwaway runtime environments for AI agents: resolve a toolchain spec such
as `node@20`, find it in the local cache of pkgx-style bottles, compose its
environment (`PATH`, `LD_LIBRARY_PATH`, ...) and run a command with it,
isolated under `bwrap` (or `proot`), with optional persistent overlay
sessions, Xvfb-backed GUI buckets, per-site browser storage, replica herds,
isolated networks and git worktrees.

The library in `src/` is verified with Verus: every function states its
result in its contract, and the properties that span functions (the
sandbox's isolation guarantees, the reconciler's backoff and restart budget,
first-occurrence deduplication of search paths, picking the newest matching
release) are proved as lemmas next to the code they speak of.

Layout:

- `src/` — the verified library: spec parsing (`types`, `version`),
  configuration and cache layout (`config`, `cellar`, `inventory`),
  environment composition (`env`, `launch`), sandbox command lines
  (`sandbox`), Bucketfiles (`bucketfile`), build-system detection
  (`project`), sessions, GUI displays, sites, herds, nets and worktrees,
  plus the text, path and map helpers they share (`text`, `paths`, `keyed`).
- `app/` — the `buckets` command line: argument parsing, the filesystem,
  processes, the network and serialization, around the library.
- `tests/` — tests of the library.
