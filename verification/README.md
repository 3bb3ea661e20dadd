# rustui

A terminal UI library whose logic is verified with Verus.

- `src/` is the verified library: framebuffers and their differential
  rendering to ANSI escape sequences, text attributes and colors, decoding of
  keyboard and mouse input, and the blocks and playing field of the Tetris demo.
  `src/rcurses/` holds the earlier styling and key API that the demo uses.
- `app/` holds what talks to the operating system: the terminal device (raw
  mode, size), standard input and output, and the render and listener threads.
- `tests/` runs the library on concrete inputs.
