use voxel_terrain::heightfield::{lattice_hash, terrain_grid_indices};

#[test]
fn lattice_hash_exact_values() {
    assert_eq!(lattice_hash(0, 0), 0);
    assert_eq!(lattice_hash(1, 2), 59231);
    assert_eq!(lattice_hash(-5, 3), 34289);
    assert_eq!(lattice_hash(i32::MIN, i32::MAX), 1615);
}

#[test]
fn lattice_hash_depends_on_both_coordinates() {
    assert_ne!(lattice_hash(1, 2), lattice_hash(2, 1));
    assert_ne!(lattice_hash(0, 1), lattice_hash(0, 0));
}

#[test]
fn terrain_grid_indices_two_triangles_per_cell() {
    let idx = terrain_grid_indices();
    assert_eq!(idx.len(), 32 * 32 * 6);
    assert_eq!(&idx[0..6], &[0, 33, 1, 1, 33, 34]);
    // cell (x = 31, z = 0)
    assert_eq!(&idx[31 * 6..32 * 6], &[31, 64, 32, 32, 64, 65]);
    // cell (x = 0, z = 1)
    assert_eq!(&idx[32 * 6..33 * 6], &[33, 66, 34, 34, 66, 67]);
    // last cell (31, 31)
    let last = 31 * 33 + 31;
    assert_eq!(&idx[idx.len() - 6..], &[last, last + 33, last + 1, last + 1, last + 33, last + 34]);
    assert!(idx.iter().all(|&i| i < 33 * 33));
}
