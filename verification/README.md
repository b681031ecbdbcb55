# backup_helper

A desktop backup helper with two services:

- a one-way incremental backup of folder pairs (copy what changed, optionally
  mirror deletions), run on a period or on file-system changes;
- a two-way sync between an origin and a working folder, planned by a
  three-way diff against a baseline, with a content-addressed version store
  and an undo journal; it checks that both folders are reachable first and
  reports when a pair loses or regains its connection.

## Layout

- `src/` is the verified library (Verus). It holds the decisions and data
  models: the backup tally and copy rule (`backup`), the service state machine
  (`engine`), configurations (`config`, `v2`), the status shown to the user
  (`status`), log file naming (`logger`), the three-way planner and the
  properties it keeps (`sync::diff`, `sync::laws`, `sync::apply`), the index
  types (`sync::types`, `path_map`), scanning helpers and content hashes
  (`sync::scan`), the version store naming (`sync::store`), the order of the
  steps of a copy or delete and its journal record (`sync::ops`), journal
  undo steps (`sync::db`), and rclone targets and the reading of rclone
  output (`sync::cloud`, which the two-way sync does not use).
- `app/` is the command-line program around it: file system walks and copies,
  the SQLite metadata database, the background threads, file watching and
  configuration files.
- `tests/` exercises the library on concrete values.
