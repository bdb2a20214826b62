# codex_session_visibility

Repairs the visibility of Codex session history after the model provider of an
instance changes: rollout files, the SQLite state databases, the session index,
the local thread catalog and the desktop app's global state are moved to the
provider the instance's config selects, so that old sessions show up again.

## Layout

- `src/` — the library, verified with Verus. It decides everything: which
  stores a repair mode touches (`modes`), which sessions and instances a
  request targets (`selection`, `requests`), how rollout records are rewritten
  (`rollout`, `facts`), which SQL statements are run and what their rows mean
  (`threads_sql`, `referenced`, `session_index`, `catalog`), how the session
  index and the global state are rebuilt (`index_entries`, `global_state`),
  timestamps (`timestamps`), backups (`backups`), the run's bookkeeping and
  summary (`run`, `messages`) and the provider and instance listings
  (`providers`, `instance_commands`). JSON values are held as `json::JsonValue`.
- `app/` — the I/O around it: reading configs (with `toml_edit`), rollout
  files and the session index (with `serde_json`), the SQLite databases (with
  `rusqlite`), writing files atomically, backups and restores, and the loop of
  a repair run. It also holds serializable copies of the result types.
- `tests/` — tests of the library on concrete values.

The standard library's path functions and chrono's RFC 3339 parsing and
formatting are called from `src/` through small trusted wrappers, whose results
the contracts name.
