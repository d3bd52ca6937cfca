# strangers

Procedural pixel-art creatures ("strangers") with a field-guide entry each,
drawn on a 400 × 300 RGBA canvas.

- `src/` is the library, written in Verus: canvas and strokes (`canvas`,
  `strokes`, `line`, `fill`), curves (`curve`, `sample`), random choices
  (`random`, `palette`, `params`, `eye`, `metadata`), the shading patterns
  (`pattern`) and the drawing stages (`stages`, `render`). Every function
  carries a contract that Verus proves, except three trusted wrappers whose
  contracts Verus believes without proof: `thread_rng` and `gen_range` (the
  `rand` crate's generator and its uniform draw) and `bresenham_line` (the
  `bresenham` crate's segment tracer). The random functions roll dice through
  them and hand the dice to verified functions (`Palette::from_draws`,
  `StrangerParams::from_draws`, `Metadata::from_draws`) whose contracts say
  exactly what the dice give.
- `app/` holds the WebAssembly bindings and the floating-point geometry:
  cubic-spline fitting of the curves and the perpendiculars that edge the
  gradient bands and the stripes.
- `tests/` exercises the library on concrete pictures.
