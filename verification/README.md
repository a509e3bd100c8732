# basalt

The editing core of a terminal note editor for Markdown vaults, written in
Verus with its behaviour stated in contracts and proved.

## Layout

- `src/text.rs` — a text as chars and byte offsets, char boundaries.
- `src/motion.rs` — vim motions and text objects over a document, each
  specified over char sequences and exposed over UTF-8 byte offsets; also
  the proof that `%` comes back to where it started.
- `src/state.rs` — the note editor's state: content, text buffer of the
  edited block, cursor, viewport, vim command state, register, undo/redo
  and selection, with an abstract model (`EditorModel`) that every method's
  contract speaks of.
- `src/note_editor.rs` — the editor's message handling (`update`), specified
  message by message (`update_step`).
- `src/command.rs` — the command table of key bindings, command parsing,
  and shell command lines with their variables filled in.
- `src/config.rs` — key binding sections, their layering, and key-sequence
  dispatch.
- `src/app.rs` — panes, the messages between components, and key routing.
- `src/laws.rs` — properties across operations: undo and redo, typing then
  backspace, toggling a selection, pending keys, one-key lifetimes.
- `app/` — the terminal program around the library: TOML configuration,
  drawing with ratatui, crossterm events, files and processes.
