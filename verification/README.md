# netrender

The decision logic of a scene renderer, written and proved in Verus, and a thin
program part that carries the decisions out on a graphics device.

- `src/` is the verified library. It decides which steps make up a frame and in
  which order (`frame`, `renderer`), which surfaces a compositor is told of
  (`compositor_surfaces`), which tile state and which host-produced images are
  retained (`surface_tiles`, `external_images`), how a scene is split round a
  layer with a combined effect and which image passes carry that out (`scene`,
  `combined_effect`, `effect_graph`, `effect_run`), how external textures and
  tenants take part (`external_texture`, `opaque_tenant`), and what shaders and
  pipelines agree on (`uniforms`, `pipeline`). Single-precision numbers are
  carried as bit patterns (`single`).
- `app/` holds the shaders and the calls into the graphics device. The
  rasterizer, the compositor and the blur kernels come in through the traits of
  `app/host.rs`.
- `tests/` runs the library on concrete values.

What the library does not prove it claims of a few outside functions; each such
claim stands above a wrapper in `src/text.rs`, `src/uniforms.rs`,
`src/pixels.rs` and `src/renderer.rs`.
