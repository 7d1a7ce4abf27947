# ratatui_testlib

A library for integration tests of terminal user interfaces: the application
under test runs in a pseudo-terminal, its output is drawn on an emulated
screen, and tests send keys and mouse events, wait for text, and assert on
what the screen shows (text, cursor, layout, Sixel/Kitty/iTerm2 graphics,
golden files).

The logic is verified with Verus:

- `src/` is the verified library: the screen model fed by the VT parser,
  key and mouse encodings, graphics regions, navigation-mode and hint-label
  detection, golden file text and line diffs, daemon message framing and
  shared-memory layout, the terminal pool's accounts, and the decision steps
  of every wait loop. Laws that relate several functions are public proof
  functions named `law_*`.
- `app/` is the input/output around it: the pseudo-terminal, the synchronous
  and Tokio harnesses, the daemon client (Unix socket and shared memory), the
  terminal pool's locking and golden files on disk.
- `tests/` runs the library on concrete values.
