# creatura

A creature simulator: bodies are grown from a genotype graph by a
depth-first walk, jointed together, and moved by muscles driven by
oscillators or from the keyboard.

- `src/` is the verified library (Verus):
  - `layer`: collision layers of the parts of a body (even and odd depths
    alternate, so jointed parts never collide);
  - `builder`: the stack that attaches each visited node of the walk to the
    part of its enclosing node, with the laws of depth-first walks;
  - `keyboard`: keys of the muscle control, the command each frame gives
    each muscle, joint toggling and brain edits;
  - `oscillator`: which oscillator drives which muscle;
  - `pickup`: mouse actions of the pickup tool.
- `app/` is the bevy/avian program around it: rendering, physics, file I/O,
  and the floating-point geometry.
- `tests/` exercises the library.
