# babomemo

A mouse-first terminal memo pad that keeps one plain-text memo file,
`.babomemo`, in each directory.

`src/` is the library, written in Verus and verified:

- `document` — the memo file format (notes introduced by `---` lines, with
  escaping), its reader and writer, and the proofs that what is written reads
  back unchanged and that a byte order mark and CRLF line ends are ignored.
- `config` — the settings file (`height:N`), with reading and writing proved
  to agree.
- `storage` — what loading does with the outcome of reading the memo file
  and the settings file, and the memo file's path.
- `app` — the memo pad's state: focus, confirmation of deletions, the
  restore history, scrolling, what a mouse event or a key means (including
  the Ctrl+N, Ctrl+D, Enter and Esc shortcuts), and the save state, which
  never quits with unsaved changes; with proofs that deletions wait for
  confirmation and that restoring undoes them.
- `layout`, `screen` — where memos, the add button, the toolbar (settings in
  the upper-right corner) and dialogs go on the screen.
- `i18n` — the choice of interface language from the system locales and the
  embedded Fluent resources (through `unic-langid` and `fluent-langneg`),
  and message fallback.
- `styles`, `text`, `constants` — text styles, character-sequence helpers,
  and shared limits.

`app/` is the terminal program around it: file I/O, the terminal, drawing,
the clipboard, Fluent bundles and per-memo text editing.
