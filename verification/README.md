# silo

Lightweight environment isolation for AI command-line tools. Each
environment lives in `~/.silo/<name>/` (or under `$SILO_ROOT`) with a
`manifest.toml`; commands run in it get a clean environment built from the
manifest.

Layout:

- `src/` — the library, verified with Verus: manifest validation and `~`
  expansion (`manifest`), the child environment (`runtime_env`), the
  envfile format and keychain answers (`secrets`), locating environments and
  checking loaded manifests (`env_path`), the texts and choices of each
  command (`commands`), a name-sorted variable map (`env_map`), path and
  string helpers (`paths`, `text`), and error messages (`error`).
- `app/` — the `silo` program: command-line parsing, reading TOML, files,
  the keychain and child processes.
- `tests/` — tests of the library.
