# gator

A terminal emulator whose core is verified with Verus.

- `src/` is the core. `screen.rs` is the mathematical model of a screen and
  `ansi.rs` of a terminal; the executable types (`grid.rs`, `stream.rs`,
  `app.rs`, `tui.rs`, ...) are proved to do what the models say. `laws.rs`, and
  the `law_*` functions of the other modules, state what holds across
  operations: that output may arrive in any chunks, that the alternate screen
  leaves the primary alone, that rows keep their absolute place, and so on.
- `app/` is ordinary Rust around it: the window and the GPU, the PTY, files,
  clipboard and the event loops. Positions and ages cross over as integers;
  floating point stays in `app/`.
- `tests/` runs the core.

Trusted are the `vte` parser, in `stream.rs`, the making of a `winit` icon, in
`icon.rs`, and two methods of `String`, in `text.rs`. Their contracts are there.
