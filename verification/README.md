# aks_terminal

A GPU-accelerated terminal emulator whose core logic is a Verus-verified
library.

- `src/` — the verified library:
  - `terminal` — the character grid (`TerminalGrid`), its abstract model
    (`GridModel`) and the interpretation of printed characters, C0 controls,
    cursor movement, erasing and SGR attributes, with laws about them;
  - `theme` — cell colours and the 8-bit palette they resolve to;
  - `input` — key presses to the bytes a shell expects;
  - `atlas`, `glyph_cache` — shelf packing of glyph bitmaps and the glyph
    cache, with the proof that packed bitmaps never overlap;
  - `render`, `fonts` — what a frame draws, face selection and coverage
    cropping;
  - `header`, `pty` — title-bar buttons and draining the shell's output.
- `app/` — the program around it: window and event loop (winit), GPU
  rendering (wgpu), fonts (font-kit), the shell's pseudo-terminal
  (portable-pty) and the escape-sequence parser callbacks (vte).
- `tests/` — tests of the library on concrete inputs.

Scrollback is not implemented: the grid keeps only the visible screen, so
lines scrolled off the top are gone and mouse-wheel events are ignored.
