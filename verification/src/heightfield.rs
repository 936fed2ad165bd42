//! Integer parts of the streamed terrain meshes: the hash of a lattice point of
//! the value noise, whose low 16 bits the game scales into `0.0..=1.0`, and the
//! triangle indices of the square height grid of a terrain chunk.

use vstd::prelude::*;

use crate::world::{add_wrap64, lemma_mul_wrap_of_value, mul_wrap64};

verus! {

/// The 16-bit hash of lattice point `(x, z)`: both coordinates sign-extended
/// to 64 bits and combined with odd multipliers, then folded twice.
pub open spec fn lattice_hash_value(x: i32, z: i32) -> u16 {
    let h0 = add_wrap64(mul_wrap64(x as u64, 374761393), mul_wrap64(z as u64, 668265263));
    let h1 = mul_wrap64(h0 ^ (h0 >> 13u64), 1274126177);
    ((h1 ^ (h1 >> 16u64)) & 0xFFFF) as u16
}

/// The 64-bit sign extension of an `i32` is its value modulo 2^64.
pub proof fn lemma_i32_bits(v: i32)
    ensures
        (v as u64) as int == (v as int) % 0x1_0000_0000_0000_0000,
{
    assert((v as u64) as int == if v < 0 {
        v + 0x1_0000_0000_0000_0000
    } else {
        v as int
    }) by (bit_vector);
    let m: int = 0x1_0000_0000_0000_0000;
    if v < 0 {
        vstd::arithmetic::div_mod::lemma_mod_multiples_vanish(1, v as int, m);
        vstd::arithmetic::div_mod::lemma_small_mod((v + m) as nat, m as nat);
    } else {
        vstd::arithmetic::div_mod::lemma_small_mod(v as nat, m as nat);
    }
}

/// The lattice hash in plain arithmetic: `x` and `z` by their signed values,
/// times their constants, summed modulo 2^64; that value xor itself over 2^13,
/// times the third constant modulo 2^64; that value xor itself over 2^16,
/// modulo 2^16.
pub proof fn law_lattice_hash_arithmetic(x: i32, z: i32)
    ensures
        ({
            let m = 0x1_0000_0000_0000_0000int;
            let h0 = (((x as int) * 374761393 + (z as int) * 668265263) % m) as u64;
            let a = h0 ^ ((h0 as int / 8192) as u64);
            let h1 = ((a as int * 1274126177) % m) as u64;
            let b = h1 ^ ((h1 as int / 65536) as u64);
            lattice_hash_value(x, z) as int == b as int % 65536
        }),
{
    let m = 0x1_0000_0000_0000_0000int;
    lemma_i32_bits(x);
    lemma_i32_bits(z);
    lemma_mul_wrap_of_value(x as u64, x as int, 374761393);
    lemma_mul_wrap_of_value(z as u64, z as int, 668265263);
    let px = mul_wrap64(x as u64, 374761393);
    let pz = mul_wrap64(z as u64, 668265263);
    vstd::arithmetic::div_mod::lemma_add_mod_noop(
        (x as int) * 374761393,
        (z as int) * 668265263,
        m,
    );
    let h0 = add_wrap64(px, pz);
    assert(h0 as int == ((x as int) * 374761393 + (z as int) * 668265263) % m);
    assert(h0 >> 13u64 == h0 / 8192) by (bit_vector);
    let h1 = mul_wrap64(h0 ^ (h0 >> 13u64), 1274126177);
    assert(h1 >> 16u64 == h1 / 65536) by (bit_vector);
    let b = h1 ^ (h1 >> 16u64);
    assert(b & 0xFFFF == b % 65536) by (bit_vector);
}

/// Hash of lattice point `(x, z)`, in `0..=0xFFFF`.
pub fn lattice_hash(x: i32, z: i32) -> (h: u16)
    ensures
        h == lattice_hash_value(x, z),
{
    let mut h = x as u64;
    h = h.wrapping_mul(374761393).wrapping_add((z as u64).wrapping_mul(668265263));
    h = (h ^ (h >> 13)).wrapping_mul(1274126177);
    ((h ^ (h >> 16)) & 0xFFFF) as u16
}

/// Number of grid cells along each side of a streamed terrain chunk; the grid
/// has one more vertex than cells along each side.
pub const CHUNK_RES: usize = 32;

/// Position of index `j` of the two triangles of grid cell `(x, z)`.
pub open spec fn cell_slot(x: int, z: int, j: int) -> int {
    (z * 32 + x) * 6 + j
}

/// The two triangles of grid cell `(x, z)`, over the grid vertices numbered row
/// by row: `i0` its corner, `i1` the next in the row, `i2` and `i3` the same in
/// the next row; as `[i0, i2, i1, i1, i2, i3]`.
pub open spec fn cell_indices(x: int, z: int) -> Seq<u32> {
    let i0 = z * 33 + x;
    let i1 = i0 + 1;
    let i2 = i0 + 33;
    let i3 = i2 + 1;
    seq![i0 as u32, i2 as u32, i1 as u32, i1 as u32, i2 as u32, i3 as u32]
}

/// The two triangles of grid cell `(x, z)` by grid coordinates (column
/// `i % 33`, row `i / 33` of vertex `i`): `(x, z), (x, z+1), (x+1, z)` and
/// `(x+1, z), (x, z+1), (x+1, z+1)`, the cell's four corners split along the
/// diagonal from `(x+1, z)` to `(x, z+1)`.
pub proof fn law_cell_triangles(x: int, z: int)
    requires
        0 <= x < 32,
        0 <= z < 32,
    ensures
        ({
            let t = cell_indices(x, z);
            &&& t.len() == 6
            &&& t[0] % 33 == x && t[0] / 33 == z
            &&& t[1] % 33 == x && t[1] / 33 == z + 1
            &&& t[2] % 33 == x + 1 && t[2] / 33 == z
            &&& t[3] % 33 == x + 1 && t[3] / 33 == z
            &&& t[4] % 33 == x && t[4] / 33 == z + 1
            &&& t[5] % 33 == x + 1 && t[5] / 33 == z + 1
        }),
{
    let t = cell_indices(x, z);
    let i0 = z * 33 + x;
    assert(t[0] as int == i0 && t[1] as int == i0 + 33 && t[2] as int == i0 + 1);
    assert(t[3] as int == i0 + 1 && t[4] as int == i0 + 33 && t[5] as int == i0 + 34);
    vstd::arithmetic::div_mod::lemma_fundamental_div_mod_converse(i0, 33, z, x);
    vstd::arithmetic::div_mod::lemma_fundamental_div_mod_converse(i0 + 33, 33, z + 1, x);
    vstd::arithmetic::div_mod::lemma_fundamental_div_mod_converse(i0 + 1, 33, z, x + 1);
    vstd::arithmetic::div_mod::lemma_fundamental_div_mod_converse(i0 + 34, 33, z + 1, x + 1);
}

/// The triangle list of a terrain chunk's height grid: two triangles per cell,
/// cells row by row.
pub fn terrain_grid_indices() -> (indices: Vec<u32>)
    ensures
        indices@.len() == 32 * 32 * 6,
        forall|x: int, z: int, j: int|
            0 <= x < 32 && 0 <= z < 32 && 0 <= j < 6 ==> indices@[#[trigger] cell_slot(x, z, j)]
                == cell_indices(x, z)[j],
{
    let mut indices: Vec<u32> = Vec::with_capacity(CHUNK_RES * CHUNK_RES * 6);
    let mut z: usize = 0;
    while z < CHUNK_RES
        invariant
            0 <= z <= 32,
            indices@.len() == z * 32 * 6,
            forall|x2: int, z2: int, j: int|
                0 <= x2 < 32 && 0 <= z2 < z && 0 <= j < 6 ==> indices@[#[trigger] cell_slot(x2, z2, j)]
                    == cell_indices(x2, z2)[j],
        decreases 32 - z,
    {
        let mut x: usize = 0;
        while x < CHUNK_RES
            invariant
                0 <= z < 32,
                0 <= x <= 32,
                indices@.len() == (z * 32 + x) * 6,
                forall|x2: int, z2: int, j: int|
                    0 <= x2 < 32 && 0 <= z2 < 32 && (z2 < z || (z2 == z && x2 < x)) && 0 <= j < 6
                        ==> indices@[#[trigger] cell_slot(x2, z2, j)] == cell_indices(x2, z2)[j],
            decreases 32 - x,
        {
            assert(z * (CHUNK_RES + 1) == z * 33);
            let i0 = (z * (CHUNK_RES + 1) + x) as u32;
            let i1 = i0 + 1;
            let i2 = i0 + (CHUNK_RES + 1) as u32;
            let i3 = i2 + 1;
            let ghost before = indices@;
            indices.push(i0);
            indices.push(i2);
            indices.push(i1);
            indices.push(i1);
            indices.push(i2);
            indices.push(i3);
            proof {
                assert forall|x2: int, z2: int, j: int|
                    0 <= x2 < 32 && 0 <= z2 < 32 && (z2 < z || (z2 == z && x2 < x + 1)) && 0 <= j
                        < 6 implies indices@[#[trigger] cell_slot(x2, z2, j)] == cell_indices(
                    x2,
                    z2,
                )[j] by {
                    if z2 == z && x2 == x {
                        assert(cell_slot(x2, z2, j) == before.len() + j);
                    } else {
                        assert(cell_slot(x2, z2, j) < before.len());
                        assert(indices@[cell_slot(x2, z2, j)] == before[cell_slot(x2, z2, j)]);
                    }
                }
            }
            x += 1;
        }
        z += 1;
    }
    indices
}

} // verus!
