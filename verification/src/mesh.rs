//! Meshing of a chunk: one quad for every block face that borders air.

use vstd::prelude::*;

use crate::world::{
    block_index, in_chunk, Block, Chunk, CHUNK_SIZE, WORLD_HEIGHT,
};

verus! {

/// The six faces of a block.
#[derive(Clone, Copy, Debug, PartialEq, Eq, Structural)]
pub enum Face {
    /// +y
    Top,
    /// -y
    Bottom,
    /// -z
    North,
    /// +z
    South,
    /// -x
    West,
    /// +x
    East,
}

/// One corner of a block face: its position `(x, y, z)` on the block lattice, and the block
/// and face it belongs to, which decide its shade.
#[derive(Clone, Copy, Debug, PartialEq, Eq, Structural)]
pub struct Vertex {
    pub x: u32,
    pub y: u32,
    pub z: u32,
    pub block: Block,
    pub face: Face,
}

/// A triangle list: each face is four vertices and two triangles.
pub struct Mesh {
    pub vertices: Vec<Vertex>,
    pub indices: Vec<u32>,
}

/// The block position on the other side of `face` of block `(x, y, z)`.
pub open spec fn neighbor(face: Face, x: int, y: int, z: int) -> (int, int, int) {
    match face {
        Face::Top => (x, y + 1, z),
        Face::Bottom => (x, y - 1, z),
        Face::North => (x, y, z - 1),
        Face::South => (x, y, z + 1),
        Face::West => (x - 1, y, z),
        Face::East => (x + 1, y, z),
    }
}

/// Position `(x, y, z)` holds air: it lies outside the chunk or its block is air.
pub open spec fn air_at(blocks: Seq<Block>, x: int, y: int, z: int) -> bool {
    !in_chunk(x, y, z) || blocks[block_index(x, y, z)] == Block::Air
}

/// Face `face` of the non-air block `(x, y, z)` is drawn: it borders air.
pub open spec fn face_shown(blocks: Seq<Block>, face: Face, x: int, y: int, z: int) -> bool {
    let n = neighbor(face, x, y, z);
    blocks[block_index(x, y, z)] != Block::Air && air_at(blocks, n.0, n.1, n.2)
}

/// A vertex at lattice point `(x, y, z)`.
pub open spec fn corner(x: int, y: int, z: int, block: Block, face: Face) -> Vertex {
    Vertex { x: x as u32, y: y as u32, z: z as u32, block, face }
}

/// The four corners of `face` of the unit cube at `(x, y, z)`, in the winding
/// order the renderer expects.
pub open spec fn face_vertices(face: Face, x: int, y: int, z: int, b: Block) -> Seq<Vertex> {
    let (x0, y0, z0, x1, y1, z1) = (x, y, z, x + 1, y + 1, z + 1);
    match face {
        Face::Top => seq![
            corner(x0, y1, z0, b, face),
            corner(x1, y1, z0, b, face),
            corner(x1, y1, z1, b, face),
            corner(x0, y1, z1, b, face),
        ],
        Face::Bottom => seq![
            corner(x0, y0, z0, b, face),
            corner(x0, y0, z1, b, face),
            corner(x1, y0, z1, b, face),
            corner(x1, y0, z0, b, face),
        ],
        Face::North => seq![
            corner(x0, y0, z0, b, face),
            corner(x1, y0, z0, b, face),
            corner(x1, y1, z0, b, face),
            corner(x0, y1, z0, b, face),
        ],
        Face::South => seq![
            corner(x0, y0, z1, b, face),
            corner(x0, y1, z1, b, face),
            corner(x1, y1, z1, b, face),
            corner(x1, y0, z1, b, face),
        ],
        Face::West => seq![
            corner(x0, y0, z0, b, face),
            corner(x0, y1, z0, b, face),
            corner(x0, y1, z1, b, face),
            corner(x0, y0, z1, b, face),
        ],
        Face::East => seq![
            corner(x1, y0, z0, b, face),
            corner(x1, y0, z1, b, face),
            corner(x1, y1, z1, b, face),
            corner(x1, y1, z0, b, face),
        ],
    }
}

/// The vertices of `face` of block `(x, y, z)` when that face is shown, else none.
#[verifier::opaque]
pub open spec fn shown_face_vertices(blocks: Seq<Block>, face: Face, x: int, y: int, z: int) -> Seq<
    Vertex,
> {
    if face_shown(blocks, face, x, y, z) {
        face_vertices(face, x, y, z, blocks[block_index(x, y, z)])
    } else {
        Seq::empty()
    }
}

/// The vertices a block contributes: its shown faces in the order top, bottom,
/// north, south, west, east.
pub open spec fn block_vertices(blocks: Seq<Block>, x: int, y: int, z: int) -> Seq<Vertex> {
    shown_face_vertices(blocks, Face::Top, x, y, z) + shown_face_vertices(
        blocks,
        Face::Bottom,
        x,
        y,
        z,
    ) + shown_face_vertices(blocks, Face::North, x, y, z) + shown_face_vertices(
        blocks,
        Face::South,
        x,
        y,
        z,
    ) + shown_face_vertices(blocks, Face::West, x, y, z) + shown_face_vertices(
        blocks,
        Face::East,
        x,
        y,
        z,
    )
}

/// The vertices of the first `n` blocks in array order (layer by layer, row by
/// row).
pub open spec fn mesh_vertices(blocks: Seq<Block>, n: nat) -> Seq<Vertex>
    decreases n,
{
    if n == 0 {
        Seq::empty()
    } else {
        let i = n - 1;
        mesh_vertices(blocks, (n - 1) as nat) + block_vertices(blocks, i % 16, i / 256, (i / 16) % 16)
    }
}

/// The six indices of the two triangles of the quad whose first vertex is `base`.
pub open spec fn quad_indices(base: int) -> Seq<u32> {
    seq![
        base as u32,
        (base + 1) as u32,
        (base + 2) as u32,
        base as u32,
        (base + 2) as u32,
        (base + 3) as u32,
    ]
}

/// The indices of `q` quads laid out one after another.
pub open spec fn mesh_indices(q: nat) -> Seq<u32>
    decreases q,
{
    if q == 0 {
        Seq::empty()
    } else {
        mesh_indices((q - 1) as nat) + quad_indices(4 * (q - 1))
    }
}

/// The mesh of a chunk: the shown faces of all its blocks, and two triangles per
/// face.
pub open spec fn chunk_mesh(blocks: Seq<Block>, m: Mesh) -> bool {
    &&& m.vertices@ == mesh_vertices(blocks, 98304)
    &&& m.vertices@.len() % 4 == 0
    &&& m.indices@ == mesh_indices(m.vertices@.len() / 4)
}

/// Whether chunk-local `(x, y, z)` holds air; positions outside the chunk do.
pub fn is_air(chunk: &Chunk, x: i32, y: i32, z: i32) -> (r: bool)
    requires
        chunk.wf(),
    ensures
        r == air_at(chunk.blocks_view(), x as int, y as int, z as int),
{
    if x < 0 || z < 0 || y < 0 || x >= CHUNK_SIZE as i32 || z >= CHUNK_SIZE as i32 || y
        >= WORLD_HEIGHT as i32 {
        return true;
    }
    chunk.block_at(x as usize, y as usize, z as usize) == Block::Air
}

/// Appends the four corners of `face` of block `(x, y, z)` and its two triangles.
fn add_face(
    vertices: &mut Vec<Vertex>,
    indices: &mut Vec<u32>,
    face: Face,
    x: usize,
    y: usize,
    z: usize,
    block: Block,
)
    requires
        old(vertices)@.len() + 4 <= u32::MAX,
        x < u32::MAX,
        y < u32::MAX,
        z < u32::MAX,
    ensures
        final(vertices)@ == old(vertices)@ + face_vertices(face, x as int, y as int, z as int, block),
        final(indices)@ == old(indices)@ + quad_indices(old(vertices)@.len() as int),
{
    let x0 = x as u32;
    let y0 = y as u32;
    let z0 = z as u32;
    let x1 = x0 + 1;
    let y1 = y0 + 1;
    let z1 = z0 + 1;

    let base_index = vertices.len() as u32;
    assert((x as u32) as int == x && ((x + 1) as u32) as int == x + 1);
    assert((y as u32) as int == y && ((y + 1) as u32) as int == y + 1);
    assert((z as u32) as int == z && ((z + 1) as u32) as int == z + 1);
    match face {
        Face::Top => {
            vertices.push(Vertex { x: x0, y: y1, z: z0, block, face });
            vertices.push(Vertex { x: x1, y: y1, z: z0, block, face });
            vertices.push(Vertex { x: x1, y: y1, z: z1, block, face });
            vertices.push(Vertex { x: x0, y: y1, z: z1, block, face });
        },
        Face::Bottom => {
            vertices.push(Vertex { x: x0, y: y0, z: z0, block, face });
            vertices.push(Vertex { x: x0, y: y0, z: z1, block, face });
            vertices.push(Vertex { x: x1, y: y0, z: z1, block, face });
            vertices.push(Vertex { x: x1, y: y0, z: z0, block, face });
        },
        Face::North => {
            vertices.push(Vertex { x: x0, y: y0, z: z0, block, face });
            vertices.push(Vertex { x: x1, y: y0, z: z0, block, face });
            vertices.push(Vertex { x: x1, y: y1, z: z0, block, face });
            vertices.push(Vertex { x: x0, y: y1, z: z0, block, face });
        },
        Face::South => {
            vertices.push(Vertex { x: x0, y: y0, z: z1, block, face });
            vertices.push(Vertex { x: x0, y: y1, z: z1, block, face });
            vertices.push(Vertex { x: x1, y: y1, z: z1, block, face });
            vertices.push(Vertex { x: x1, y: y0, z: z1, block, face });
        },
        Face::West => {
            vertices.push(Vertex { x: x0, y: y0, z: z0, block, face });
            vertices.push(Vertex { x: x0, y: y1, z: z0, block, face });
            vertices.push(Vertex { x: x0, y: y1, z: z1, block, face });
            vertices.push(Vertex { x: x0, y: y0, z: z1, block, face });
        },
        Face::East => {
            vertices.push(Vertex { x: x1, y: y0, z: z0, block, face });
            vertices.push(Vertex { x: x1, y: y0, z: z1, block, face });
            vertices.push(Vertex { x: x1, y: y1, z: z1, block, face });
            vertices.push(Vertex { x: x1, y: y1, z: z0, block, face });
        },
    }
    proof {
        assert(vertices@ =~= old(vertices)@ + face_vertices(face, x as int, y as int, z as int, block));
    }

    indices.push(base_index);
    indices.push(base_index + 1);
    indices.push(base_index + 2);
    indices.push(base_index);
    indices.push(base_index + 2);
    indices.push(base_index + 3);
    proof {
        assert(indices@ =~= old(indices)@ + quad_indices(old(vertices)@.len() as int));
    }
}

/// Appends `face` of the non-air block `(x, y, z)` when the neighbouring
/// position `(nx, ny, nz)` on that side holds air.
fn add_face_if_open(
    chunk: &Chunk,
    vertices: &mut Vec<Vertex>,
    indices: &mut Vec<u32>,
    face: Face,
    x: usize,
    y: usize,
    z: usize,
    block: Block,
    nx: i32,
    ny: i32,
    nz: i32,
)
    requires
        chunk.wf(),
        x < 16,
        y < 384,
        z < 16,
        block == chunk.blocks_view()[block_index(x as int, y as int, z as int)],
        block != Block::Air,
        neighbor(face, x as int, y as int, z as int) == (nx as int, ny as int, nz as int),
        old(vertices)@.len() + 4 <= u32::MAX,
        old(vertices)@.len() % 4 == 0,
        old(indices)@ == mesh_indices(old(vertices)@.len() / 4),
    ensures
        final(vertices)@ == old(vertices)@ + shown_face_vertices(
            chunk.blocks_view(),
            face,
            x as int,
            y as int,
            z as int,
        ),
        final(vertices)@.len() % 4 == 0,
        final(vertices)@.len() <= old(vertices)@.len() + 4,
        final(indices)@ == mesh_indices(final(vertices)@.len() / 4),
{
    reveal(shown_face_vertices);
    if is_air(chunk, nx, ny, nz) {
        add_face(vertices, indices, face, x, y, z, block);
        proof {
            lemma_mesh_indices_step(vertices@.len() / 4);
        }
    } else {
        proof {
            assert(vertices@ =~= old(vertices)@ + Seq::empty());
        }
    }
}

/// Appends the shown faces of block `(x, y, z)`.
#[verifier::rlimit(20)]
fn mesh_block(
    chunk: &Chunk,
    vertices: &mut Vec<Vertex>,
    indices: &mut Vec<u32>,
    x: usize,
    y: usize,
    z: usize,
)
    requires
        chunk.wf(),
        x < 16,
        y < 384,
        z < 16,
        old(vertices)@.len() + 24 <= u32::MAX,
        old(vertices)@.len() % 4 == 0,
        old(indices)@ == mesh_indices(old(vertices)@.len() / 4),
    ensures
        final(vertices)@ == old(vertices)@ + block_vertices(
            chunk.blocks_view(),
            x as int,
            y as int,
            z as int,
        ),
        final(vertices)@.len() % 4 == 0,
        final(vertices)@.len() <= old(vertices)@.len() + 24,
        final(indices)@ == mesh_indices(final(vertices)@.len() / 4),
{
    let ghost blocks = chunk.blocks_view();
    let ghost (xi, yi, zi) = (x as int, y as int, z as int);
    let block = chunk.block_at(x, y, z);
    if block == Block::Air {
        proof {
            reveal(shown_face_vertices);
            assert(block_vertices(blocks, xi, yi, zi) =~= Seq::empty());
            assert(vertices@ =~= old(vertices)@ + block_vertices(blocks, xi, yi, zi));
        }
        return;
    }
    let ghost v0 = vertices@;
    let ghost mut acc = Seq::<Vertex>::empty();
    // Top
    add_face_if_open(chunk, vertices, indices, Face::Top, x, y, z, block, x as i32, y as i32 + 1, z as i32);
    proof {
        let part = shown_face_vertices(blocks, Face::Top, xi, yi, zi);
        assert(vertices@ =~= v0 + (acc + part));
        acc = acc + part;
    }
    // Bottom
    add_face_if_open(chunk, vertices, indices, Face::Bottom, x, y, z, block, x as i32, y as i32 - 1, z as i32);
    proof {
        let part = shown_face_vertices(blocks, Face::Bottom, xi, yi, zi);
        assert(vertices@ =~= v0 + (acc + part));
        acc = acc + part;
    }
    // North (-z)
    add_face_if_open(chunk, vertices, indices, Face::North, x, y, z, block, x as i32, y as i32, z as i32 - 1);
    proof {
        let part = shown_face_vertices(blocks, Face::North, xi, yi, zi);
        assert(vertices@ =~= v0 + (acc + part));
        acc = acc + part;
    }
    // South (+z)
    add_face_if_open(chunk, vertices, indices, Face::South, x, y, z, block, x as i32, y as i32, z as i32 + 1);
    proof {
        let part = shown_face_vertices(blocks, Face::South, xi, yi, zi);
        assert(vertices@ =~= v0 + (acc + part));
        acc = acc + part;
    }
    // West (-x)
    add_face_if_open(chunk, vertices, indices, Face::West, x, y, z, block, x as i32 - 1, y as i32, z as i32);
    proof {
        let part = shown_face_vertices(blocks, Face::West, xi, yi, zi);
        assert(vertices@ =~= v0 + (acc + part));
        acc = acc + part;
    }
    // East (+x)
    add_face_if_open(chunk, vertices, indices, Face::East, x, y, z, block, x as i32 + 1, y as i32, z as i32);
    proof {
        let part = shown_face_vertices(blocks, Face::East, xi, yi, zi);
        assert(vertices@ =~= v0 + (acc + part));
        acc = acc + part;
    }
    assert(acc =~= block_vertices(blocks, xi, yi, zi));
    assert(vertices@ =~= v0 + block_vertices(blocks, xi, yi, zi));
}

/// The mesh of every block face of `chunk` that borders air, with the block and
/// face recorded at each corner.
pub fn build_chunk_top_mesh(chunk: &Chunk) -> (m: Mesh)
    requires
        chunk.wf(),
    ensures
        chunk_mesh(chunk.blocks_view(), m),
{
    let ghost blocks = chunk.blocks_view();
    let mut vertices: Vec<Vertex> = Vec::new();
    let mut indices: Vec<u32> = Vec::new();

    let mut y: usize = 0;
    while y < WORLD_HEIGHT
        invariant
            chunk.wf(),
            blocks == chunk.blocks_view(),
            0 <= y <= 384,
            vertices@ == mesh_vertices(blocks, (y * 256) as nat),
            vertices@.len() % 4 == 0,
            vertices@.len() <= 24 * (y * 256),
            indices@ == mesh_indices(vertices@.len() / 4),
        decreases 384 - y,
    {
        let mut z: usize = 0;
        while z < CHUNK_SIZE
            invariant
                chunk.wf(),
                blocks == chunk.blocks_view(),
                0 <= y < 384,
                0 <= z <= 16,
                vertices@ == mesh_vertices(blocks, (y * 256 + z * 16) as nat),
                vertices@.len() % 4 == 0,
                vertices@.len() <= 24 * (y * 256 + z * 16),
                indices@ == mesh_indices(vertices@.len() / 4),
            decreases 16 - z,
        {
            let mut x: usize = 0;
            while x < CHUNK_SIZE
                invariant
                    chunk.wf(),
                    blocks == chunk.blocks_view(),
                    0 <= y < 384,
                    0 <= z < 16,
                    0 <= x <= 16,
                    vertices@ == mesh_vertices(blocks, (y * 256 + z * 16 + x) as nat),
                    vertices@.len() % 4 == 0,
                    vertices@.len() <= 24 * (y * 256 + z * 16 + x),
                    indices@ == mesh_indices(vertices@.len() / 4),
                decreases 16 - x,
            {
                proof {
                    lemma_block_coords(x as int, y as int, z as int);
                }
                mesh_block(chunk, &mut vertices, &mut indices, x, y, z);
                x += 1;
            }
            z += 1;
        }
        y += 1;
    }

    Mesh { vertices, indices }
}

/// Lattice point `v` is a corner of the unit cube of block `(x, y, z)`.
pub open spec fn corner_of_cube(v: Vertex, x: int, y: int, z: int) -> bool {
    &&& (v.x == x || v.x == x + 1)
    &&& (v.y == y || v.y == y + 1)
    &&& (v.z == z || v.z == z + 1)
}

/// The cross product of two integer vectors.
pub open spec fn cross3(a: (int, int, int), b: (int, int, int)) -> (int, int, int) {
    (a.1 * b.2 - a.2 * b.1, a.2 * b.0 - a.0 * b.2, a.0 * b.1 - a.1 * b.0)
}

/// The cross product of `q - p` and `r - p`, over the integers.
pub open spec fn corner_cross(p: Vertex, q: Vertex, r: Vertex) -> (int, int, int) {
    cross3((q.x - p.x, q.y - p.y, q.z - p.z), (r.x - p.x, r.y - p.y, r.z - p.z))
}

/// The four corners of a drawn face: they carry the face and its block, are four
/// different corners of the block's cube, lie on the cube's side towards the
/// neighbour that the face borders (top: `y + 1`, bottom: `y`, north: `z`,
/// south: `z + 1`, west: `x`, east: `x + 1`), which makes them corners of the
/// neighbour's cube too, and wind the same way on every face: both triangles
/// `(0, 1, 2)` and `(0, 2, 3)` have the normal that points from the neighbour
/// back into the block.
pub proof fn law_face_corners(face: Face, x: int, y: int, z: int, b: Block)
    requires
        0 <= x < u32::MAX,
        0 <= y < u32::MAX,
        0 <= z < u32::MAX,
    ensures
        ({
            let vs = face_vertices(face, x, y, z, b);
            let n = neighbor(face, x, y, z);
            &&& vs.len() == 4
            &&& forall|i: int| 0 <= i < 4 ==> (#[trigger] vs[i]).block == b && vs[i].face == face
            &&& forall|i: int|
                0 <= i < 4 ==> corner_of_cube(#[trigger] vs[i], x, y, z) && corner_of_cube(
                    vs[i],
                    n.0,
                    n.1,
                    n.2,
                )
            &&& forall|i: int, j: int| 0 <= i < j < 4 ==> #[trigger] vs[i] != #[trigger] vs[j]
            &&& face == Face::Top ==> forall|i: int| 0 <= i < 4 ==> (#[trigger] vs[i]).y == y + 1
            &&& face == Face::Bottom ==> forall|i: int| 0 <= i < 4 ==> (#[trigger] vs[i]).y == y
            &&& face == Face::North ==> forall|i: int| 0 <= i < 4 ==> (#[trigger] vs[i]).z == z
            &&& face == Face::South ==> forall|i: int| 0 <= i < 4 ==> (#[trigger] vs[i]).z == z + 1
            &&& face == Face::West ==> forall|i: int| 0 <= i < 4 ==> (#[trigger] vs[i]).x == x
            &&& face == Face::East ==> forall|i: int| 0 <= i < 4 ==> (#[trigger] vs[i]).x == x + 1
            &&& corner_cross(vs[0], vs[1], vs[2]) == (x - n.0, y - n.1, z - n.2)
            &&& corner_cross(vs[0], vs[2], vs[3]) == (x - n.0, y - n.1, z - n.2)
        }),
{
    lemma_face_corner_positions(face, x, y, z, b);
    lemma_face_winding(face, x, y, z, b);
}

/// Where the corners of a face lie.
proof fn lemma_face_corner_positions(face: Face, x: int, y: int, z: int, b: Block)
    requires
        0 <= x < u32::MAX,
        0 <= y < u32::MAX,
        0 <= z < u32::MAX,
    ensures
        ({
            let vs = face_vertices(face, x, y, z, b);
            let n = neighbor(face, x, y, z);
            &&& vs.len() == 4
            &&& forall|i: int| 0 <= i < 4 ==> (#[trigger] vs[i]).block == b && vs[i].face == face
            &&& forall|i: int|
                0 <= i < 4 ==> corner_of_cube(#[trigger] vs[i], x, y, z) && corner_of_cube(
                    vs[i],
                    n.0,
                    n.1,
                    n.2,
                )
            &&& forall|i: int, j: int| 0 <= i < j < 4 ==> #[trigger] vs[i] != #[trigger] vs[j]
            &&& face == Face::Top ==> forall|i: int| 0 <= i < 4 ==> (#[trigger] vs[i]).y == y + 1
            &&& face == Face::Bottom ==> forall|i: int| 0 <= i < 4 ==> (#[trigger] vs[i]).y == y
            &&& face == Face::North ==> forall|i: int| 0 <= i < 4 ==> (#[trigger] vs[i]).z == z
            &&& face == Face::South ==> forall|i: int| 0 <= i < 4 ==> (#[trigger] vs[i]).z == z + 1
            &&& face == Face::West ==> forall|i: int| 0 <= i < 4 ==> (#[trigger] vs[i]).x == x
            &&& face == Face::East ==> forall|i: int| 0 <= i < 4 ==> (#[trigger] vs[i]).x == x + 1
        }),
{
    let vs = face_vertices(face, x, y, z, b);
    let n = neighbor(face, x, y, z);
    let c = |px: int, py: int, pz: int| corner(px, py, pz, b, face);
    let (x1, y1, z1) = (x + 1, y + 1, z + 1);
    match face {
        Face::Top => {
            assert(vs == seq![c(x, y1, z), c(x1, y1, z), c(x1, y1, z1), c(x, y1, z1)]);
        },
        Face::Bottom => {
            assert(vs == seq![c(x, y, z), c(x, y, z1), c(x1, y, z1), c(x1, y, z)]);
        },
        Face::North => {
            assert(vs == seq![c(x, y, z), c(x1, y, z), c(x1, y1, z), c(x, y1, z)]);
        },
        Face::South => {
            assert(vs == seq![c(x, y, z1), c(x, y1, z1), c(x1, y1, z1), c(x1, y, z1)]);
        },
        Face::West => {
            assert(vs == seq![c(x, y, z), c(x, y1, z), c(x, y1, z1), c(x, y, z1)]);
        },
        Face::East => {
            assert(vs == seq![c(x1, y, z), c(x1, y, z1), c(x1, y1, z1), c(x1, y1, z)]);
        },
    }
    assert forall|i: int, j: int| 0 <= i < j < 4 implies #[trigger] vs[i] != #[trigger] vs[j] by {
        assert(vs[i].x != vs[j].x || vs[i].y != vs[j].y || vs[i].z != vs[j].z);
    }
}

/// How the corners of a face wind.
proof fn lemma_face_winding(face: Face, x: int, y: int, z: int, b: Block)
    requires
        0 <= x < u32::MAX,
        0 <= y < u32::MAX,
        0 <= z < u32::MAX,
    ensures
        ({
            let vs = face_vertices(face, x, y, z, b);
            let n = neighbor(face, x, y, z);
            &&& corner_cross(vs[0], vs[1], vs[2]) == (x - n.0, y - n.1, z - n.2)
            &&& corner_cross(vs[0], vs[2], vs[3]) == (x - n.0, y - n.1, z - n.2)
        }),
{
    let vs = face_vertices(face, x, y, z, b);
    let n = neighbor(face, x, y, z);
    let c = |px: int, py: int, pz: int| corner(px, py, pz, b, face);
    let (x1, y1, z1) = (x + 1, y + 1, z + 1);
    match face {
        Face::Top => {
            assert(vs == seq![c(x, y1, z), c(x1, y1, z), c(x1, y1, z1), c(x, y1, z1)]);
            lemma_corner_cross(vs[0], vs[1], vs[2], (1int, 0int, 0int), (1int, 0int, 1int));
            lemma_corner_cross(vs[0], vs[2], vs[3], (1int, 0int, 1int), (0int, 0int, 1int));
        },
        Face::Bottom => {
            assert(vs == seq![c(x, y, z), c(x, y, z1), c(x1, y, z1), c(x1, y, z)]);
            lemma_corner_cross(vs[0], vs[1], vs[2], (0int, 0int, 1int), (1int, 0int, 1int));
            lemma_corner_cross(vs[0], vs[2], vs[3], (1int, 0int, 1int), (1int, 0int, 0int));
        },
        Face::North => {
            assert(vs == seq![c(x, y, z), c(x1, y, z), c(x1, y1, z), c(x, y1, z)]);
            lemma_corner_cross(vs[0], vs[1], vs[2], (1int, 0int, 0int), (1int, 1int, 0int));
            lemma_corner_cross(vs[0], vs[2], vs[3], (1int, 1int, 0int), (0int, 1int, 0int));
        },
        Face::South => {
            assert(vs == seq![c(x, y, z1), c(x, y1, z1), c(x1, y1, z1), c(x1, y, z1)]);
            lemma_corner_cross(vs[0], vs[1], vs[2], (0int, 1int, 0int), (1int, 1int, 0int));
            lemma_corner_cross(vs[0], vs[2], vs[3], (1int, 1int, 0int), (1int, 0int, 0int));
        },
        Face::West => {
            assert(vs == seq![c(x, y, z), c(x, y1, z), c(x, y1, z1), c(x, y, z1)]);
            lemma_corner_cross(vs[0], vs[1], vs[2], (0int, 1int, 0int), (0int, 1int, 1int));
            lemma_corner_cross(vs[0], vs[2], vs[3], (0int, 1int, 1int), (0int, 0int, 1int));
        },
        Face::East => {
            assert(vs == seq![c(x1, y, z), c(x1, y, z1), c(x1, y1, z1), c(x1, y1, z)]);
            lemma_corner_cross(vs[0], vs[1], vs[2], (0int, 0int, 1int), (0int, 1int, 1int));
            lemma_corner_cross(vs[0], vs[2], vs[3], (0int, 1int, 1int), (0int, 1int, 0int));
        },
    }
}

/// The cross product at corners through their coordinate differences.
proof fn lemma_corner_cross(p: Vertex, q: Vertex, r: Vertex, a: (int, int, int), b: (int, int, int))
    requires
        a == (q.x - p.x, q.y - p.y, q.z - p.z),
        b == (r.x - p.x, r.y - p.y, r.z - p.z),
    ensures
        corner_cross(p, q, r) == cross3(a, b),
{
}

/// The indices of a mesh of `q` quads, position by position: the `k`-th quad's
/// six indices are `4k, 4k+1, 4k+2` and `4k, 4k+2, 4k+3`, two triangles
/// sharing the diagonal from its first to its third corner.
pub proof fn law_mesh_indices_layout(q: nat)
    requires
        4 * q <= 0x1_0000_0000,
    ensures
        mesh_indices(q).len() == 6 * q,
        forall|k: int|
            0 <= k < q ==> {
                &&& #[trigger] mesh_indices(q)[6 * k] == 4 * k
                &&& mesh_indices(q)[6 * k + 1] == 4 * k + 1
                &&& mesh_indices(q)[6 * k + 2] == 4 * k + 2
                &&& mesh_indices(q)[6 * k + 3] == 4 * k
                &&& mesh_indices(q)[6 * k + 4] == 4 * k + 2
                &&& mesh_indices(q)[6 * k + 5] == 4 * k + 3
            },
    decreases q,
{
    if q > 0 {
        law_mesh_indices_layout((q - 1) as nat);
        let prev = mesh_indices((q - 1) as nat);
        let ix = mesh_indices(q);
        assert forall|k: int| 0 <= k < q implies {
            &&& #[trigger] ix[6 * k] == 4 * k
            &&& ix[6 * k + 1] == 4 * k + 1
            &&& ix[6 * k + 2] == 4 * k + 2
            &&& ix[6 * k + 3] == 4 * k
            &&& ix[6 * k + 4] == 4 * k + 2
            &&& ix[6 * k + 5] == 4 * k + 3
        } by {
            if k < q - 1 {
                assert(ix[6 * k] == prev[6 * k]);
                assert(ix[6 * k + 1] == prev[6 * k + 1]);
                assert(ix[6 * k + 2] == prev[6 * k + 2]);
                assert(ix[6 * k + 3] == prev[6 * k + 3]);
                assert(ix[6 * k + 4] == prev[6 * k + 4]);
                assert(ix[6 * k + 5] == prev[6 * k + 5]);
            }
        }
    }
}

/// Faces on the outside of the chunk are drawn: a non-air block on the chunk's
/// border shows the faces that look out of the chunk (east at `x == 15`, west
/// at `x == 0`, south at `z == 15`, north at `z == 0`, top at `y == 383`,
/// bottom at `y == 0`), and any non-air block shows its top when the block
/// above is air.
pub proof fn law_border_faces_shown(blocks: Seq<Block>, x: int, y: int, z: int)
    requires
        in_chunk(x, y, z),
        blocks[block_index(x, y, z)] != Block::Air,
    ensures
        x == 15 ==> face_shown(blocks, Face::East, x, y, z),
        x == 0 ==> face_shown(blocks, Face::West, x, y, z),
        z == 15 ==> face_shown(blocks, Face::South, x, y, z),
        z == 0 ==> face_shown(blocks, Face::North, x, y, z),
        y == 383 ==> face_shown(blocks, Face::Top, x, y, z),
        y == 0 ==> face_shown(blocks, Face::Bottom, x, y, z),
        y < 383 && blocks[block_index(x, y + 1, z)] == Block::Air ==> face_shown(
            blocks,
            Face::Top,
            x,
            y,
            z,
        ),
        y < 383 && blocks[block_index(x, y + 1, z)] != Block::Air ==> !face_shown(
            blocks,
            Face::Top,
            x,
            y,
            z,
        ),
{
}

/// Every index of a mesh of `q` quads names one of its `4 * q` vertices, and
/// there are six indices per quad.
pub proof fn law_mesh_indices_in_bounds(q: nat)
    requires
        4 * q <= 0x1_0000_0000,
    ensures
        mesh_indices(q).len() == 6 * q,
        forall|i: int| 0 <= i < 6 * q ==> (#[trigger] mesh_indices(q)[i] as int) < 4 * q,
    decreases q,
{
    if q > 0 {
        law_mesh_indices_in_bounds((q - 1) as nat);
        let prev = mesh_indices((q - 1) as nat);
        assert forall|i: int| 0 <= i < 6 * q implies (#[trigger] mesh_indices(q)[i] as int) < 4
            * q by {
            if i < 6 * (q - 1) {
                assert(mesh_indices(q)[i] == prev[i]);
            }
        }
    }
}

/// Appending one more quad's indices.
proof fn lemma_mesh_indices_step(q: nat)
    requires
        q >= 1,
    ensures
        mesh_indices(q) == mesh_indices((q - 1) as nat) + quad_indices(4 * (q - 1)),
{
}

/// The array position of block `(x, y, z)` gives back its coordinates.
proof fn lemma_block_coords(x: int, y: int, z: int)
    requires
        in_chunk(x, y, z),
    ensures
        ({
            let n = block_index(x, y, z);
            n % 16 == x && n / 256 == y && (n / 16) % 16 == z
        }),
{
    let n = block_index(x, y, z);
    vstd::arithmetic::div_mod::lemma_fundamental_div_mod_converse(n, 16, y * 16 + z, x);
    vstd::arithmetic::div_mod::lemma_fundamental_div_mod_converse(n, 256, y, z * 16 + x);
    vstd::arithmetic::div_mod::lemma_fundamental_div_mod_converse(y * 16 + z, 16, y, z);
}

} // verus!
