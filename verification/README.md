# engine

The core of a small voxel game engine, written in Verus: each function in `src/` carries a
contract, and Verus proves the code meets it.

## Layout

- `src/ecs/`: the entity-component store (`ComponentVec`, a sparse set with an index map) and
  the `World`, one column of optional components per component type.
- `src/rendering/`: voxel chunks and their face-culled meshes, the streamed terrain around the
  camera, media, render-target bookkeeping, surface sizes, debug-view modes and sprite index
  buffers.
- `src/camera/`: discrete input state (keys, mouse buttons) and the projection cycle.
- `src/gfx/`: frame buffers and sampler presets.
- `src/gpu/`: the choice of graphics backend from what probing found.
- `src/assoc.rs`: association lists seen as maps, with the lemmas the stores share.
- `app/`: what works with floating point, the GPU (wgpu), window events (winit) and the file
  system, built on the library.
- `tests/`: tests of the library on concrete values.

Laws that relate several operations (reading back a write, the projection and debug-mode
cycles, streaming reaching a fixed point, mesh face counts) stand in `src/` as public proof
functions whose names begin with `law_`.
