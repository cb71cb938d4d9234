# msym

A command-line tool that downloads Material Symbols as Jetpack Compose Kotlin
sources, with its logic written as a library whose functions carry
machine-checked contracts.

- `src/` — the library, with contracts and proofs:
  - `text` — strings as character sequences: whitespace, lines, joining, search;
  - `kotlin` — rewriting a downloaded icon source (package, field renaming,
    extension receiver, import), with its laws;
  - `config`, `settings` — validating the two configuration formats;
  - `task` — download jobs and their URLs and output paths;
  - `util` — Kotlin file names from icon names;
  - `download`, `executor` — decoding a body, and tallying a batch of downloads;
  - `word_case` — word-case conversions done by the `heck` crate.
- `app/` — the program: command line, file and network I/O, concurrency.
- `tests/` — tests of the library.
