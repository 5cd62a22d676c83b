# collapse

Collapse compresses uploaded files into 7z (LZMA2) or ZIP (Deflate)
archives in background jobs, and serves them for download.

- `src/` is the library, verified with Verus: algorithms and compression of
  a file's bytes (`compression`), jobs and their states (`models`), the job
  registry (`registry`), storage paths (`storage`, `paths`), configuration
  (`config`), decimal numbers (`text`), the decisions of each HTTP endpoint
  (`routes`, `schemas`, `error`) and of the compression worker (`queue`).
- `app/` is the program around it: the HTTP server (axum, tokio), reading
  `collapse.toml`, the disk work, and the command-line compressor.
- `tests/` runs the library on concrete values.
