# file_inspector

A desktop file inspector: drop a file or folder on the window to see its
metadata, tag it, and search everything indexed so far. Records are keyed by
the SHA-256 of the file content and kept in SQLite (or, with `--json-cache`,
in a JSON file).

- `src/` is the verified library. It decides everything the inspector shows
  and stores: configuration defaults, exclusion patterns, tag lists, file
  size text, text statistics, media and image details, scan tallies, search
  matching, and the state changes of both inspector variants.
- `app/` is the window (eframe), the file system, hashing, image and media
  readers, the local clock, SQLite and JSON files. It gathers what the
  library needs and stores what it produces.
- `tests/` runs the library on concrete inputs.
