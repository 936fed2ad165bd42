# voxel_terrain

The logic of a small voxel game, verified with Verus.

- `src/world.rs`: chunks of 16 x 384 x 16 blocks, their generation from a
  terrain height function, the height map that always agrees with the blocks,
  block edits, statistics, world/chunk coordinate conversion, and the lattice
  hash of the terrain noise.
- `src/mesh.rs`: the faces of a chunk that border air, as quads with two
  triangles each.
- `src/stream.rs`: which terrain chunks to create and drop around the player.
- `src/heightfield.rs`: the lattice hash of the streamed terrain's value noise
  and the triangle indices of its height grid.
- `src/ui.rs`: the hotbar.
- `app/`: the game itself (Bevy), the floating-point noise and physics, and GPU
  vertex buffers; it calls the library for every decision above.
