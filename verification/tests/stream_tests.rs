use voxel_terrain::stream::{chunks_needed, plan_terrain_stream, GridPos};

#[test]
fn nothing_loaded_needs_the_whole_window() {
    let loaded: Vec<GridPos> = Vec::new();
    let needed = chunks_needed((0, 0), &loaded);
    assert_eq!(needed.len(), 25);
    assert_eq!(needed[0], (-2, -2));
    assert_eq!(needed[1], (-1, -2));
    assert_eq!(needed[5], (-2, -1));
    assert_eq!(needed[24], (2, 2));
    let plan = plan_terrain_stream((0, 0), &loaded);
    assert_eq!(plan.spawn, vec![(-2, -2), (-1, -2)]);
    assert!(plan.despawn.is_empty());
}

#[test]
fn loaded_cells_are_skipped() {
    let loaded: Vec<GridPos> = vec![(8, 10), (9, 10), (10, 10), (11, 10)];
    let plan = plan_terrain_stream((10, 12), &loaded);
    assert_eq!(plan.spawn, vec![(12, 10), (8, 11)]);
    assert!(plan.despawn.is_empty());
}

#[test]
fn far_chunks_are_dropped_in_order() {
    let loaded: Vec<GridPos> = vec![(0, 0), (4, 0), (3, 3), (-3, -4), (0, 3), (-4, 0)];
    let plan = plan_terrain_stream((0, 0), &loaded);
    assert_eq!(plan.despawn, vec![(4, 0), (-3, -4), (-4, 0)]);
    assert_eq!(plan.spawn, vec![(-2, -2), (-1, -2)]);
}

#[test]
fn full_window_spawns_nothing() {
    let mut loaded: Vec<GridPos> = Vec::new();
    for dz in -2..=2 {
        for dx in -2..=2 {
            loaded.push((-100 + dx, 50 + dz));
        }
    }
    let plan = plan_terrain_stream((-100, 50), &loaded);
    assert!(plan.spawn.is_empty());
    assert!(plan.despawn.is_empty());
    let needed = chunks_needed((-100, 50), &loaded);
    assert!(needed.is_empty());
}

#[test]
fn one_missing_cell_spawns_one() {
    let mut loaded: Vec<GridPos> = Vec::new();
    for dz in -2..=2 {
        for dx in -2..=2 {
            if (dx, dz) != (1, 2) {
                loaded.push((dx, dz));
            }
        }
    }
    let plan = plan_terrain_stream((0, 0), &loaded);
    assert_eq!(plan.spawn, vec![(1, 2)]);
}
