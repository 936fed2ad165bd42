use voxel_terrain::mesh::{build_chunk_top_mesh, is_air, Face, Vertex};
use voxel_terrain::world::{Block, ChunkPos, World};

fn flat(h: u32) -> impl Fn(u64, i64, i64) -> u32 {
    move |_seed: u64, _x: i64, _z: i64| h
}

#[test]
fn is_air_outside_and_above() {
    let world = World::new(0);
    let chunk = world.generate_chunk(ChunkPos { x: 0, z: 0 }, &flat(3));
    assert!(is_air(&chunk, -1, 0, 0));
    assert!(is_air(&chunk, 0, -1, 0));
    assert!(is_air(&chunk, 0, 0, 16));
    assert!(is_air(&chunk, 16, 0, 0));
    assert!(is_air(&chunk, 0, 384, 0));
    assert!(is_air(&chunk, 5, 3, 5));
    assert!(!is_air(&chunk, 5, 2, 5));
    assert!(!is_air(&chunk, 0, 0, 0));
}

#[test]
fn flat_single_layer_mesh() {
    let world = World::new(0);
    let chunk = world.generate_chunk(ChunkPos { x: 0, z: 0 }, &flat(1));
    let mesh = build_chunk_top_mesh(&chunk);
    // 256 tops, 256 bottoms (below the world is air), 64 outer sides.
    let quads = 256 + 256 + 64;
    assert_eq!(mesh.vertices.len(), 4 * quads);
    assert_eq!(mesh.indices.len(), 6 * quads);
    for i in mesh.indices.iter() {
        assert!((*i as usize) < mesh.vertices.len());
    }
    // First block (0,0,0): top, bottom, north, west faces, in that order.
    assert_eq!(
        mesh.vertices[0],
        Vertex { x: 0, y: 1, z: 0, block: Block::Grass, face: Face::Top }
    );
    assert_eq!(
        mesh.vertices[2],
        Vertex { x: 1, y: 1, z: 1, block: Block::Grass, face: Face::Top }
    );
    assert_eq!(
        mesh.vertices[5],
        Vertex { x: 0, y: 0, z: 1, block: Block::Grass, face: Face::Bottom }
    );
    assert_eq!(mesh.vertices[8].face, Face::North);
    assert_eq!(mesh.vertices[12].face, Face::West);
    assert_eq!(
        mesh.vertices[13],
        Vertex { x: 0, y: 1, z: 0, block: Block::Grass, face: Face::West }
    );
    assert_eq!(&mesh.indices[0..12], &[0, 1, 2, 0, 2, 3, 4, 5, 6, 4, 6, 7]);
}

#[test]
fn buried_blocks_draw_nothing() {
    let world = World::new(0);
    let chunk = world.generate_chunk(ChunkPos { x: 0, z: 0 }, &flat(3));
    let mesh = build_chunk_top_mesh(&chunk);
    // Each column: top of grass, bottom of the lowest block; outer sides of
    // three layers along the border.
    let quads = 256 + 256 + 3 * 64;
    assert_eq!(mesh.vertices.len(), 4 * quads);
    assert!(mesh.vertices.iter().all(|v| v.y <= 3));
    assert_eq!(mesh.vertices.iter().filter(|v| v.face == Face::Top).count(), 4 * 256);
    assert!(mesh
        .vertices
        .iter()
        .filter(|v| v.face == Face::Top)
        .all(|v| v.block == Block::Grass && v.y == 3));
}

#[test]
fn a_hole_exposes_inner_faces() {
    let world = World::new(0);
    let mut chunk = world.generate_chunk(ChunkPos { x: 0, z: 0 }, &flat(3));
    let before = build_chunk_top_mesh(&chunk).vertices.len();
    assert!(chunk.set_block(8, 2, 8, Block::Air));
    let mesh = build_chunk_top_mesh(&chunk);
    // Removing a top block hides its top and shows the top of the dirt below
    // and the four sides of its neighbours.
    assert_eq!(mesh.vertices.len(), before + 4 * 4);
    assert!(mesh.vertices.iter().any(|v| v.face == Face::Top && v.block == Block::Dirt && v.x == 8 && v.y == 2 && v.z == 8));
}
