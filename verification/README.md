# kl_lords

The logic of a terrain editor, verified with Verus: terrain settings and
their editing rules, the layout of terrain meshes, the planning of the
endless terrain around the viewer, sculpting with undo and redo, saving
sculpt maps, the world grid and the placement of buildings.

- `src/` is the verified library. Floating-point values never appear in it:
  they are carried as IEEE-754 bit patterns (`src/float_bits.rs`), moved,
  classified and compared there, and computed on by the application.
- `app/` is the program around it: noise sampling, height curves, brush
  strokes, mesh positions and normals, and the other floating-point work;
  file handling; and the save format with serde's derives.
- `tests/` exercises the library from outside.
