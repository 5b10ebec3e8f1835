# kitweb

A terminal front-end for a headless browser: the browser runs on a virtual
X display, its frames are streamed to the terminal with the Kitty graphics
protocol, and keys and mouse events are forwarded back to it.

The library under `src/` is verified with Verus:

- `kitty` — base64 framing of frames into Kitty graphics packets (4096-byte
  chunks, `m=1`/`m=0`, header keys), and the retry policy for writes.
- `render` — per-frame decisions: skip frames identical to the last one sent,
  zlib-compress changed frames (`o=z`), and draw the status bar only when
  something changed and no prompt owns the bottom row.
- `input` — the key and mouse bindings, the one-line prompt's editing, its
  texts, URL normalization and click placement.
- `browser` — display selection, snap detection, PulseAudio routing and the
  argument lists of Xvfb, the browser and xdotool.
- `terminal` — Kitty-protocol detection from the environment.
- `config` — the command-line settings and their defaults.
- `text` — decimal and hexadecimal rendering, `escape_default`, UTF-8 widths.

`app/` holds the I/O around it: processes, the terminal event and render
loops, and command-line parsing.
