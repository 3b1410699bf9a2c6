# shaft

A two-pane terminal file manager that copies and moves files between the
local disk and a host reached over SSH/SFTP.

## Layout

- `src/` is the library, verified with Verus. It holds the state machine of
  the application (`app`), the panes (`pane`), key bindings (`keybinds`),
  listings and their order (`fs`), parsing and completing SSH targets and
  choosing the authentication order (`ssh`), the plan of a copy or move
  (`transfer`), deleting a remote directory tree (`removal`), the texts on
  screen and the rows a pane shows (`view`), path and text helpers
  (`paths`, `text`), and properties that span several calls (`laws`).
  The library performs no input or output: each transition returns the
  commands to carry out, and their results are handed back to it.
- `app/` is the program around it: command line, terminal drawing with
  ratatui, key events from crossterm, the local disk and the SFTP session
  with ssh2, reading `~/.ssh/config`, and the transfer progress display.
- `tests/` runs the library on concrete values.
