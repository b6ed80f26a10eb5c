# preferz

The core of a reference-image board, verified with Verus: a scene of images
and text notes on an infinite canvas, selection and stacking order, the
undoable edits, the decisions of the `.bee` / `.prz` project format, the
choice of the transform handle under the pointer, an image cache and the
interface texts.

Layout:

- `src/` — the verified library. Each public function states its result in
  its contract; the laws of the edits (what an undo gives back, what two
  flips give back, where a reorder puts items) are public proof functions
  beside them.
- `app/` — the ordinary Rust around it: floating-point geometry, the
  viewport, drawing with egui, the floating-point edits and arrangement,
  SQLite files, image decoding and the serde forms of the types.
- `tests/` — tests of the library on concrete values.

Floating-point values (positions, scales, angles, opacity) are held in the
library as their IEEE-754 bit patterns (`Scalar`), which the library only
stores and compares (`==` is floating-point equality: `0.0 == -0.0`, a NaN
equals nothing); all arithmetic on them happens in `app/`.
