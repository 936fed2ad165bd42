//! A voxel world: terrain chunks, the hotbar, chunk meshing, terrain streaming
//! and the integer hashes behind the terrain noise.

pub mod heightfield;
pub mod mesh;
pub mod stream;
pub mod ui;
pub mod world;
