# renderer

A small wgpu renderer for 2D shapes and 3D meshes, with hot reloading of
shaders.

The crate is split in two:

- `src/` is the bookkeeping core, written in Verus and proved against its
  contracts: the shader and render-pipeline stores and what depends on what,
  the loading of the WGSL shader library into the `naga_oil` composer, which
  rebuild follows a change of which file, the order of a hot reload, when a
  GPU buffer is made anew, instance batches, uniform offsets and the walk of
  a scene tree. `src/laws.rs` states the properties that span several
  operations.
- `app/` is the GPU side in ordinary Rust: device handles, buffers, cameras
  and projections, the shape and mesh renderers, file watching with
  `notify`, and the `Renderer` that ties them together. It hands plain values
  to the library and creates the GPU objects behind the ids the library
  gives out.

The tests under `tests/` exercise the library on concrete values.
