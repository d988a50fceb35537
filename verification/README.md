# raytracer

The part of a progressive GPU path tracer that can be proved: extraction of a scene
into flat GPU records, content hashing, the two-level layout of the scene on the
device, and the control of accumulation from frame to frame. The library is written in
Verus; every function states what it returns, and `src/laws` states what holds across
functions.

- `src/float.rs`, `src/fnv.rs`: 32-bit floats as bit patterns with their order, and
  FNV-1a hashing.
- `src/scene.rs`, `src/records.rs`: the scene as plain values, and the records that the
  tracing kernel reads. `src/upload.rs` gives their bytes.
- `src/content.rs`, `src/bake.rs`, `src/gather.rs`: content hashes, deformation plans,
  and the gathered scene.
- `src/bounds.rs`, `src/gpu_scene.rs`: boxes, BVH layout, acceleration structure inputs
  and in-place motion.
- `src/resolution.rs`, `src/ray_tracer.rs`: traced resolution, denoising strength,
  settings and frames.
- `app/`: floating-point arithmetic, wgpu and image files around the library.

The one thing taken on trust is that `bytemuck::cast_slice` gives the memory of a slice
of words (`src/upload.rs`).
