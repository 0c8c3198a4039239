# cce-terminal

A terminal emulator for the cce desktop. VT emulation is `alacritty_terminal`'s;
everything the terminal itself decides is a library whose functions carry
contracts proved by Verus.

- `src/` is the library.
  - `term`, `utf8`: a scrollback of lines fed with raw bytes, and the incremental
    decoding under it.
  - `keys`, `mouse`, `paste`, `digits`: what key presses, mouse events and pastes
    send to the pty.
  - `mode`: the terminal modes that input and painting ask about.
  - `colors`: the palette, the color cube, and the way from a cell's color to RGB.
  - `render`: one frame in cells, batched into runs.
  - `session`: the window's state and what its events do to it.
  - `plate_menu`, `launch`: the corner menu, and how the terminal is started.
- `tests/` runs the library on concrete values, with the emulator linked.
- `app/` is the program around it: the pty, the clipboards, the toolkit `cce_ui`,
  and the pixel arithmetic.

Handlers of `session` never do I/O: they take plain values, update the state and
return what is to be done. Calls into `alacritty_terminal` stand in small
functions whose doc comments say what is taken from it unproved.
