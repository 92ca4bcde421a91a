# gui_core

The core of an immediate mode GUI, verified with Verus.

- `src/` is the verified library:
  - `buffer`: growable and fixed size element buffers.
  - `math`: packed colours and their HTML notation, rectangles and vectors
    over any of the integer component types, rounding helpers.
  - `hmi`: option flags, input state, the window manager (creation, focus,
    closing, collapsing, end of frame), widget behaviour (buttons, progress
    bars, scrollbars), glyph rasterization from spans, the font atlas
    (box packing and pixel copying), and the triangle indices of stroked
    paths, quads and convex polygons.
  - `sys`: single owner handles of outside resources.
- `tests/` runs the library on concrete values.
- `app/` is the program around it: a GLFW window with OpenGL, FreeType glyph
  rendering, memory mapped font files, PNG output, and the floating point
  colour spaces.
