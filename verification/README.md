# psp_engine

Support code for a small PSP game, verified with Verus.

- `src/avec.rs` — `AVec<T>`, a vector whose capacity grows in steps of four.
- `src/abump.rs` — `ABump`, a byte store that appends named chunks.
- `src/assets.rs`, `src/engine_assets.rs` — the two bitmap loaders: header
  fields and pixel conversion, as functions on the file's bytes.
- `src/handler.rs`, `src/sequential_handler.rs`, `src/asset_handler.rs` —
  asset registries keyed by random ids, with their three ways of picking an id.
- `src/render.rs` — sprite-sheet tiles, power-of-two texture sizes, the frame
  counter, and a hex dump.
- `src/utils.rs` — the seeded random number and in-place map access.

`app/` is the game itself: file I/O, the GU, the controller and drawing, on
top of the library.  It needs the `psp` crate and a PSP target.
