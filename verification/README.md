# Vicuna

A terminal client for [Ollama](https://ollama.com/): browse, pull, inspect
and delete models, and chat with them, with sessions kept in a local SQLite
database.

## Layout

- `src/` — the verified library (Verus). It holds the application state and
  how it answers keys and events, the decisions of the backend task, the
  reading of model names and size/quantisation labels, sorting and
  filtering, and all the text the screens show. Every function carries a
  contract proved by Verus; the few calls into other crates (Unicode case
  mapping, UUIDs, RFC 3339 dates, markdown line counts) sit behind small
  wrappers whose contracts say what is assumed of them.
- `app/` — the program around the library: the terminal (ratatui,
  crossterm, tui-textarea), HTTP to Ollama (reqwest), the database (libsql),
  logging, and the floating-point memory estimate.
- `tests/` — tests of the library.

## Keys

- `Ctrl+A` / `Ctrl+D`: models / chat tab. `Tab`: cycle panes. `Ctrl+Q`: quit.
- Models: `j`/`k` move, `Enter` starts a chat, `p` pulls, `d` deletes,
  `i` inspects, `s` changes the sort column.
- Chat: `Ctrl+Left`/`Ctrl+Right` switch between sessions and composer;
  `Enter` sends or opens a session, `d` deletes a session, `Ctrl+N` starts a
  new one, `PageUp`/`PageDown` scroll.
