# blast

The verified core of Blast, a manager for isolated Python environments,
written in Verus. Verus checks every function in `src/`, and most state
what they return in a contract it proves. The calls into other crates
(BLAKE3, zstd, hex, uuid, getrandom, chrono, console, petgraph, lru and the
Unicode word class of `regex-syntax`) and into the clock sit behind small
trusted wrappers; those contracts are believed, not proved, and say only
what those crates and std document. What reads the clock or the random
source is stated for every value it may give.

## Layout

- `src/` — the library:
  - `cache/` — content hashes and their file layout, compression, the LRU
    cache, the memory cache with time to live, storage evicting through an
    `lru` tracker, the key index, in-memory item storage, disk statistics
    and size limits;
  - `shell/` — shell detection, activation and deactivation scripts, the
    shell integration written into startup files;
  - `isolation/` — filesystem, network, process and container isolation:
    mount checks, access tracking, cgroup and network setup plans (which
    `app/isolation.rs` carries out);
  - `hot_reload/` — reading Python imports to find the packages a file
    needs;
  - `package.rs`, `package_state.rs`, `package_layer.rs`, `scheduler.rs` —
    pip command parsing, installed-package records with transactions and
    METADATA reading, the package layer that applies one operation to its
    packages and dependency records, and the operation queue;
  - `graph/` — the dependency graph held in a petgraph graph: walks,
    reverse dependencies, installation order, pruning, merging;
  - `debug.rs` — debug reports with the dependency graph in DOT;
  - `resources.rs`, `security.rs`, `state.rs`, `config.rs`,
    `diagnostics.rs`, `logging.rs`, `output.rs`, `commands.rs` — limits,
    capabilities, recorded state, configuration, diagnostics, log levels and
    the text the command line prints;
  - `text.rs`, `paths.rs`, `strmap.rs`, `time.rs`, `error.rs` — shared text
    and path handling, a map keyed by text, time values, random
    identifiers and errors.
- `tests/` — tests run against the compiled library.
- `app/` — the `blast` command: argument parsing, files, environment
  variables and terminal output around the library.

Laws of the library are public proof functions named `law_*`; for example
`package_state::law_rollback_restores` and
`cache::memory::law_load_after_store`.
