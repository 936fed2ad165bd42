use voxel_terrain::world::{
    hash2d, world_to_chunk, Biome, Block, ChunkPos, World, CHUNK_SIZE, WORLD_HEIGHT,
};

fn flat(h: u32) -> impl Fn(u64, i64, i64) -> u32 {
    move |_seed: u64, _x: i64, _z: i64| h
}

/// A height that depends on the seed and both coordinates, within 1..384.
fn sloped(seed: u64, x: i64, z: i64) -> u32 {
    (((x.rem_euclid(7) + 2 * z.rem_euclid(5)) as u64 + seed % 3) as u32) + 1
}

#[test]
fn world_to_chunk_splits_positive_and_negative_coordinates() {
    let (p, lx, lz) = world_to_chunk(0, 0);
    assert_eq!((p.x, p.z, lx, lz), (0, 0, 0, 0));
    let (p, lx, lz) = world_to_chunk(17, 31);
    assert_eq!((p.x, p.z, lx, lz), (1, 1, 1, 15));
    let (p, lx, lz) = world_to_chunk(-1, -16);
    assert_eq!((p.x, p.z, lx, lz), (-1, -1, 15, 0));
    let (p, lx, lz) = world_to_chunk(-17, 16);
    assert_eq!((p.x, p.z, lx, lz), (-2, 1, 15, 0));
    let (p, lx, lz) = world_to_chunk(i32::MIN, i32::MAX);
    assert_eq!((p.x, p.z, lx, lz), (-134217728, 134217727, 0, 15));
}

#[test]
fn world_to_chunk_round_trips() {
    for wx in -40..40 {
        for wz in [-1000, -17, -16, -15, 0, 15, 16, 999] {
            let (p, lx, lz) = world_to_chunk(wx, wz);
            assert!(lx < CHUNK_SIZE && lz < CHUNK_SIZE);
            assert_eq!(p.x * 16 + lx as i32, wx);
            assert_eq!(p.z * 16 + lz as i32, wz);
        }
    }
}

#[test]
fn generated_columns_are_grass_dirt_stone() {
    let world = World::new(7);
    let chunk = world.generate_chunk(ChunkPos { x: 0, z: 0 }, &flat(10));
    for x in 0..CHUNK_SIZE {
        for z in 0..CHUNK_SIZE {
            assert_eq!(chunk.height_at(x, z), 10);
            assert_eq!(chunk.block_at(x, 9, z), Block::Grass);
            for y in 6..9 {
                assert_eq!(chunk.block_at(x, y, z), Block::Dirt);
            }
            for y in 0..6 {
                assert_eq!(chunk.block_at(x, y, z), Block::Stone);
            }
            for y in 10..WORLD_HEIGHT {
                assert_eq!(chunk.block_at(x, y, z), Block::Air);
            }
        }
    }
}

#[test]
fn short_columns_have_no_stone() {
    let world = World::new(0);
    let chunk = world.generate_chunk(ChunkPos { x: 3, z: -2 }, &flat(2));
    assert_eq!(chunk.block_at(4, 1, 4), Block::Grass);
    assert_eq!(chunk.block_at(4, 0, 4), Block::Dirt);
    assert_eq!(chunk.block_at(4, 2, 4), Block::Air);
    let chunk = world.generate_chunk(ChunkPos { x: 3, z: -2 }, &flat(1));
    assert_eq!(chunk.block_at(0, 0, 0), Block::Grass);
    assert_eq!(chunk.height_at(0, 0), 1);
}

#[test]
fn generated_chunk_asks_terrain_with_world_coordinates() {
    let world = World::new(4);
    let pos = ChunkPos { x: -1, z: 2 };
    let chunk = world.generate_chunk(pos, &sloped);
    for x in 0..CHUNK_SIZE {
        for z in 0..CHUNK_SIZE {
            let wx = -16 + x as i64;
            let wz = 32 + z as i64;
            assert_eq!(chunk.height_at(x, z) as u32, sloped(4, wx, wz));
        }
    }
    assert_eq!(chunk.pos().x, -1);
    assert_eq!(chunk.pos().z, 2);
    assert!(matches!(chunk.biome(), Biome::Plains));
}

#[test]
fn height_at_world_is_the_terrain_height() {
    let world = World::new(11);
    for (wx, wz) in [(0, 0), (-1, -1), (-17, 33), (100, -250), (15, 16)] {
        assert_eq!(
            world.height_at_world(wx, wz, &sloped) as u32,
            sloped(11, wx as i64, wz as i64)
        );
    }
}

#[test]
fn block_at_world_follows_the_column() {
    let world = World::new(2);
    let h = sloped(2, -5, 9) as i32;
    assert_eq!(world.block_at_world(-5, h - 1, 9, &sloped), Block::Grass);
    assert_eq!(world.block_at_world(-5, h, 9, &sloped), Block::Air);
    assert_eq!(world.block_at_world(-5, -1, 9, &sloped), Block::Air);
    assert_eq!(world.block_at_world(-5, 384, 9, &sloped), Block::Air);
    assert_eq!(world.block_at_world(-5, 100, 9, &sloped), Block::Air);
    let deep = world.block_at_world(3, 0, 3, &flat(40));
    assert_eq!(deep, Block::Stone);
    assert_eq!(world.block_at_world(3, 36, 3, &flat(40)), Block::Dirt);
}

#[test]
fn set_block_updates_the_height_map() {
    let world = World::new(1);
    let mut chunk = world.generate_chunk(ChunkPos { x: 0, z: 0 }, &flat(5));
    assert!(chunk.set_block(3, 20, 4, Block::Stone));
    assert_eq!(chunk.block_at(3, 20, 4), Block::Stone);
    assert_eq!(chunk.height_at(3, 4), 21);
    assert!(chunk.set_block(3, 20, 4, Block::Air));
    assert_eq!(chunk.height_at(3, 4), 5);
    for y in 0..5 {
        assert!(chunk.set_block(3, y, 4, Block::Air));
    }
    assert_eq!(chunk.height_at(3, 4), 0);
    assert!(chunk.set_block(3, 383, 4, Block::Dirt));
    assert_eq!(chunk.height_at(3, 4), 384);
    // Other columns keep their height.
    assert_eq!(chunk.height_at(4, 4), 5);
}

#[test]
fn set_block_out_of_range_changes_nothing() {
    let world = World::new(1);
    let mut chunk = world.generate_chunk(ChunkPos { x: 0, z: 0 }, &flat(5));
    assert!(!chunk.set_block(16, 0, 0, Block::Air));
    assert!(!chunk.set_block(0, 384, 0, Block::Stone));
    assert!(!chunk.set_block(0, 0, 16, Block::Air));
    assert_eq!(chunk.block_at(0, 4, 0), Block::Grass);
    assert_eq!(chunk.height_at(0, 0), 5);
}

#[test]
fn stats_count_blocks_and_heights() {
    let world = World::new(0);
    let chunk = world.generate_chunk(ChunkPos { x: 0, z: 0 }, &flat(10));
    let s = chunk.stats();
    assert_eq!(s.min_height, 10);
    assert_eq!(s.max_height, 10);
    assert_eq!(s.sum_height, 2560);
    assert_eq!(s.grass, 256);
    assert_eq!(s.dirt, 768);
    assert_eq!(s.stone, 1536);
    assert_eq!(s.air, 98304 - 2560);
    assert_eq!(s.air + s.grass + s.dirt + s.stone, 98304);

    let mut chunk = world.generate_chunk(ChunkPos { x: 5, z: 5 }, &sloped);
    chunk.set_block(0, 200, 0, Block::Stone);
    let s = chunk.stats();
    assert_eq!(s.max_height, 201);
    assert_eq!(s.min_height, 1);
    assert_eq!(s.air + s.grass + s.dirt + s.stone, 98304);
}

#[test]
fn hash2d_exact_values() {
    assert_eq!(hash2d(0, 0, 0), 0);
    assert_eq!(hash2d(42, 1, 2), 1173480086);
    assert_eq!(hash2d(42, -1, -7), 3902076523);
    assert_eq!(hash2d(u64::MAX, 123456, -987654), 2166115875);
}
