# rsclip-core

The verified core of rsclip, a clipboard history for Wayland desktops.

- `src/` is the library, written and proved with Verus. Every public function
  states in its contract what it returns; the laws that relate several
  functions are public proof functions next to them (`lemma_*`).
- `tests/` runs the library on concrete values.
- `app/` is the `rsclipd` program: it reads standard input and `config.toml`,
  talks to SQLite, runs `wl-copy`, `wtype` and `tesseract`, and signals the UI.
  Every decision it acts on is taken by the library.

Modules:

| module | what it decides |
|---|---|
| `classify`, `links`, `colors`, `alpha`, `files`, `mime` | what a payload is: text, link, colour, file list, image |
| `db` | SQL text, upsert parameters, how rows read back |
| `store`, `paste`, `ocr`, `cli` | the daemon's commands |
| `format`, `display` | sizes, times, masked secrets, list rows |
| `theme`, `ui_state`, `virtual_list` | the history view |
| `profiler` | the phase stack and its tree report |
