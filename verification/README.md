# doom_render

The screen side of a software Doom renderer, verified with Verus.

- `src/` is the library, verified by Verus. Three wrappers in `wipe` that read
  the standard clock are trusted; nothing is claimed of what they return.
  - `shape` and `bleed`: the health bleed, red columns that hang from the top of
    the screen and grow as health drops.
  - `wipe`: the melting-columns transition between two frames.
  - `size`, `draw`, `frame`, `target`: buffer dimensions, draw targets with an
    8-bit index plane, one frame, and what stays from frame to frame.
  - `display` and `post`: what each display backend has to set up or change, and
    the passes of the post-process chain.
  - `num`: integer arithmetic that several modules share.
- `tests/` runs the library on concrete values.
- `app/` is ordinary Rust around it: windows, the GPU, the random source, and
  the curves that are computed in floating point.

Random numbers and the clock are not part of the library's contracts. Functions
that need random numbers take them as an argument. The clock decides one thing,
whether a wipe takes a step: `Wipe::do_melt_pixels` and `FrameCtx::do_wipe` read
it and hand the reading to `Wipe::melt_after` and `FrameCtx::do_wipe_after`, whose
contracts are exact for every reading.
