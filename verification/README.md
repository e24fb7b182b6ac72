# xbrstudio

Upscales textures by xBRZ. Textures that tile are scaled with a self-tiling
border, so that their edges keep their context; textures of box models are
scaled face by face, each face with a border taken from the faces that meet it
in space, so that no seam shows. Whole jars are turned into resource packs.

The library in `src/` is verified with Verus:

- `raster`, `codec`: images, the outside codecs that scale, read and write them,
  and the one that reads JSON
- `cube`, `tile`, `upscaling`, `render`, `frames`, `animation`: borders, plain,
  wrapped and stitched upscales, and animations
- `model`, `parse`, `json`: models, their faces, and the files they come from
- `keys`, `matching`, `entity`, `blocks`, `paths`: which model a texture belongs
  to, and what its path says about it
- `listing`, `process`, `report`, `order`: what to take from a jar, what to do
  with it, and what to report
- `overlay`, `console`, `studio`: pictures of a model's faces, what the
  command-line tools say, and the state behind the window
- `limits`: tests of whether the machine can hold what an operation makes
- `text`: texts as sequences of characters

`app/` holds what is left: argument handling, files, threads, the window, the
fractional numbers of model files, and the arithmetic in floating point by which
a model's faces are scaled to a texture. `tests/` runs the library.

Block textures of a jar are not stitched yet: the rules by which block models
are resolved against their parents, merged and judged are left to the caller of
`app/batch.rs`, and neither the command line nor the window passes any.
