# rust-mux

A small terminal multiplexer: several shells, one of them on the screen, and a status bar with a
tab for each. Ctrl-B starts a command: `c` opens a window, `n` and `p` show the next and the
previous one, and Ctrl-B again sends Ctrl-B to the shell.

- `src/` is the library, verified with Verus. It holds the state and makes the decisions: what a
  key does (`keys`), what a shell's output does (`pty`, `screen`, `bytes`), which window is shown
  and how windows come and go (`mux`), what is drawn (`draw`), how the event loop goes on (`run`),
  how a partial write goes on (`output`), and sizes, flags and the shell's path (`size`, `sys`).
- `app/` is the program around it. It owns the descriptors, the poller and the signal handler,
  does what the library says, and tells the library what came of it.
- `tests/` holds examples of what the library does.

Terminal emulation is left to `vt100`. What the library takes for granted about it stands in
`src/screen.rs`.
