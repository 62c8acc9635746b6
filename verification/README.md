# termojinal

The terminal-emulation core of the termojinal terminal and the pure parts of
its session daemon, written in Verus with their contracts proved.

## Layout

- `src/` — the verified library.
  - `cell`, `color`, `grid`, `scrollback`, `width`: cells, colors, the cell
    grid, the bounded scrollback, character widths.
  - `term` (with `term/csi`, `osc`, `dcs`, `images`, `graphics`, `history`):
    the terminal state machine driven by the VT parser's callbacks, each
    operation specified as a transition of `TermView`; `term/laws` holds the
    properties that span several operations.
  - `sgr`, `text`, `codec`: SGR parsing, character-sequence helpers, UTF-8
    and the decoders of outside crates.
  - `image_store`, `apc`, `kitty`, `iterm2`, `sixel`: inline images.
  - `modes`: mode flags, saved cursors, DRCS soft fonts.
  - `frame`, `request`, `sessions`, `session_io`, `persist`, `hotkey`: the
    daemon's wire format, its request decisions (with the shell allowlist
    read from a shells file), its session table, the decisions of a
    session's I/O task, the names of its files, its messages, and hotkey
    decisions.
  - `glyph`, `emoji`: glyphs drawn from rectangles, fallback-font ranges and
    emoji presentation.
- `tests/` — tests run against the compiled library.
- `app/` — the runtime around it: the `vte` parser adapter, frame I/O on
  tokio streams, snapshot files, serde forms of the snapshot types, the
  allowlist from `/etc/shells`, and PTY reads and writes, exit-status
  waits and process signalling for the session table.
