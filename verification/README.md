# krust

A web terminal: servers that run shells behind WebSockets, and browser clients
that show them. The logic stands in `src/` and is verified with Verus; `app/`
holds the programs around it.

- `src/client/` — the terminal in the browser: output rewriting, query replies,
  colors, graphic characters, selection, scrolling, change tracking, drawing
  operations for a 2D canvas, glyph atlas and instances for WebGL2, keyboard
  input, and the operations that a page calls.
- `src/wasm_client/` — the smaller terminal with a rectangular highlight and an
  ASCII atlas.
- `src/server/` — frames, history and budgets, the session table, and the
  course of a connection from replay to release.
- `src/text.rs` — number formatting and text comparison.
- `app/` — HTTP, WebSockets, PTYs, canvases and everything in floating point.

The emulator fails on screens of one row or two columns and on halves of wide
characters. A small terminal therefore shows a part of a larger screen, and a
wide character that a resize would cut in two is dropped.

Terminal emulation is that of the `vt100` crate. What the proofs take from it
is stated in `src/client/screen.rs`, above each call.
