# dbx_core

The persistence rules of a desktop database client, verified with Verus.

- `src/` is the verified library:
  - `json` — JSON values held as plain Rust values, read from and written
    to text through `serde_json`;
  - `settings` — the application settings document (password hash, desktop
    preferences, pinned tree nodes), read from and written to its stored text,
    and the laws that saving one setting keeps the others and reads back what
    was saved;
  - `history` — history entries, the rows that store them, and the columns the
    history table must gain;
  - `secrets` — which rows of the secrets table a save writes or deletes and
    what a load makes of them;
  - `migration` — secrets of the legacy JSON file and the connection they
    belong to;
  - `saved_sql` — saved SQL folders and files and their table rows;
  - `retention` — the statements that keep the newest history entries and
    conversations, and the rows that keeping the newest leaves.
- `app/` is the SQLite store (`sqlx`) and the shell commands around it: it
  reads and writes tables and files and takes the settings, history, secrets
  and retention rules from the library; the AI conversation rows and the
  handling of unreadable legacy files are its own.
- `tests/` exercise the library on concrete values.
