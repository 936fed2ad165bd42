//! Voxel terrain: chunks of blocks, their height columns, and the mapping
//! between world coordinates and chunk-local coordinates.

use vstd::prelude::*;

verus! {

/// The biome of a chunk.
#[derive(Clone, Copy, Debug)]
pub enum Biome {
    Plains,
}

/// The material of one voxel.
#[derive(Clone, Copy, Debug, PartialEq, Eq, Structural)]
pub enum Block {
    Air,
    Grass,
    Dirt,
    Stone,
}

/// Width and depth of a chunk, in blocks.
pub const CHUNK_SIZE: usize = 16;
/// Height of the world, in blocks.
pub const WORLD_HEIGHT: usize = 384;

/// The position of a chunk on the chunk grid.
#[derive(Clone, Copy, Debug)]
pub struct ChunkPos {
    pub x: i32,
    pub z: i32,
}

/// Position of block `(x, y, z)` in a chunk's block array: layers of `y`,
/// rows of `z`, then `x`.
pub open spec fn block_index(x: int, y: int, z: int) -> int {
    y * 256 + z * 16 + x
}

/// Position of column `(x, z)` in a chunk's height map.
pub open spec fn column_index(x: int, z: int) -> int {
    z * 16 + x
}

/// Chunk-local coordinates of a block.
pub open spec fn in_chunk(x: int, y: int, z: int) -> bool {
    0 <= x < 16 && 0 <= y < 384 && 0 <= z < 16
}

/// The block at height `y` in a freshly generated column whose surface height is
/// `h`: grass on top, three layers of dirt below it, stone beneath, air above.
pub open spec fn column_block(h: int, y: int) -> Block {
    if y < 0 || y >= h {
        Block::Air
    } else if y == h - 1 {
        Block::Grass
    } else if y >= h - 4 {
        Block::Dirt
    } else {
        Block::Stone
    }
}

/// One more than the height of the topmost non-air block of column `(x, z)`
/// among the `n` lowest layers, or 0 when they are all air.
pub open spec fn column_top(blocks: Seq<Block>, x: int, z: int, n: nat) -> nat
    decreases n,
{
    if n == 0 {
        0
    } else if blocks[block_index(x, n - 1, z)] != Block::Air {
        n
    } else {
        column_top(blocks, x, z, (n - 1) as nat)
    }
}

/// The height of column `(x, z)`: one more than its topmost non-air block.
pub open spec fn column_height(blocks: Seq<Block>, x: int, z: int) -> nat {
    column_top(blocks, x, z, 384)
}

/// Floor division: the quotient of `a / b` rounded towards negative infinity
/// (for a negative divisor, that of `-a / -b`).
pub open spec fn floor_div(a: int, b: int) -> int {
    if b > 0 { a / b } else { (-a) / (-b) }
}

/// The remainder of floor division: `a - b * floor_div(a, b)`, which lies in
/// `0..b` for a positive divisor and in `b+1..=0` for a negative one.
pub open spec fn floor_mod(a: int, b: int) -> int {
    a - b * floor_div(a, b)
}

/// What a terrain height function must be to generate chunks: callable on every
/// seed and column, and giving surface heights in `1..WORLD_HEIGHT`.
pub open spec fn valid_terrain<F: Fn(u64, i64, i64) -> u32>(f: F) -> bool {
    &&& forall|s: u64, x: i64, z: i64| #[trigger] call_requires(f, (s, x, z))
    &&& forall|s: u64, x: i64, z: i64, h: u32|
        #[trigger] call_ensures(f, (s, x, z), h) ==> 1 <= h < 384
}

/// World x (or z) coordinate of local column `l` of chunk coordinate `c`.
pub open spec fn world_coord(c: i32, l: int) -> i64 {
    (c * 16 + l) as i64
}

/// A generator seed.
pub struct World {
    seed: u64,
}

/// A 16 x 384 x 16 column of the world with its height map.
pub struct Chunk {
    pos: ChunkPos,
    biome: Biome,
    blocks: Vec<Block>,
    heightmap: Vec<u16>,
}

/// Summary numbers of a chunk: extremes and sum of its column heights, and the
/// count of each kind of block.
pub struct ChunkStats {
    pub min_height: u16,
    pub max_height: u16,
    pub sum_height: u64,
    pub air: u64,
    pub grass: u64,
    pub dirt: u64,
    pub stone: u64,
}

/// The least of a sequence of heights, `u16::MAX` for none.
pub open spec fn seq_min(s: Seq<u16>) -> int
    decreases s.len(),
{
    if s.len() == 0 {
        u16::MAX as int
    } else {
        let m = seq_min(s.drop_last());
        if s.last() < m { s.last() as int } else { m }
    }
}

/// The greatest of a sequence of heights, 0 for none.
pub open spec fn seq_max(s: Seq<u16>) -> int
    decreases s.len(),
{
    if s.len() == 0 {
        0
    } else {
        let m = seq_max(s.drop_last());
        if s.last() > m { s.last() as int } else { m }
    }
}

/// The sum of a sequence of heights.
pub open spec fn seq_sum(s: Seq<u16>) -> int
    decreases s.len(),
{
    if s.len() == 0 {
        0
    } else {
        seq_sum(s.drop_last()) + s.last()
    }
}

/// How many times `b` occurs in `s`.
pub open spec fn count_block(s: Seq<Block>, b: Block) -> int
    decreases s.len(),
{
    if s.len() == 0 {
        0
    } else {
        count_block(s.drop_last(), b) + if s.last() == b { 1int } else { 0int }
    }
}

/// `f` answers at most one height for each seed and column.
pub open spec fn deterministic_terrain<F: Fn(u64, i64, i64) -> u32>(f: F) -> bool {
    forall|s: u64, x: i64, z: i64, h1: u32, h2: u32|
        #[trigger] call_ensures(f, (s, x, z), h1) && #[trigger] call_ensures(f, (s, x, z), h2)
            ==> h1 == h2
}

/// With a terrain function that answers one height per column, a block that
/// `block_at_world` can report for column `(x, z)` at height `y`, with `h` the
/// height `height_at_world` reports there: grass just below `h`, dirt in the
/// three layers below that, stone further down, air from `h` up.
pub proof fn law_column_under_surface<F: Fn(u64, i64, i64) -> u32>(
    f: F,
    seed: u64,
    x: i64,
    z: i64,
    h: u32,
    y: int,
    b: Block,
)
    requires
        valid_terrain(f),
        deterministic_terrain(f),
        call_ensures(f, (seed, x, z), h),
        0 <= y < 384,
        exists|h2: u32| #[trigger] call_ensures(f, (seed, x, z), h2) && b == column_block(h2 as int, y),
    ensures
        y == h - 1 ==> b == Block::Grass,
        h - 4 <= y < h - 1 ==> b == Block::Dirt,
        y < h - 4 ==> b == Block::Stone,
        y >= h ==> b == Block::Air,
{
    let h2 = choose|h2: u32| #[trigger] call_ensures(f, (seed, x, z), h2) && b == column_block(h2 as int, y);
    assert(h2 == h);
}

/// In a chunk generated from a valid terrain function, every column is grass on
/// top of three layers of dirt on top of stone, up to its recorded height, with
/// air above; its recorded height is at least 1.
pub proof fn law_generated_columns<F: Fn(u64, i64, i64) -> u32>(
    c: Chunk,
    seed: u64,
    pos: ChunkPos,
    f: F,
    x: int,
    z: int,
)
    requires
        valid_terrain(f),
        c.generated_from(seed, pos, f),
        0 <= x < 16,
        0 <= z < 16,
    ensures
        ({
            let h = c.heights_view()[column_index(x, z)] as int;
            &&& 1 <= h < 384
            &&& c.blocks_view()[block_index(x, h - 1, z)] == Block::Grass
            &&& forall|y: int| h <= y < 384 ==> c.blocks_view()[#[trigger] block_index(x, y, z)] == Block::Air
            &&& forall|y: int| 0 <= y < h - 4 ==> c.blocks_view()[#[trigger] block_index(x, y, z)] == Block::Stone
        }),
{
    let h = c.heights_view()[column_index(x, z)] as int;
    assert(call_ensures(f, (seed, world_coord(pos.x, x), world_coord(pos.z, z)), h as u32));
    assert(in_chunk(x, h - 1, z));
    assert forall|y: int| h <= y < 384 implies c.blocks_view()[#[trigger] block_index(x, y, z)] == Block::Air by {
        assert(in_chunk(x, y, z));
    }
    assert forall|y: int| 0 <= y < h - 4 implies c.blocks_view()[#[trigger] block_index(x, y, z)] == Block::Stone by {
        assert(in_chunk(x, y, z));
    }
}

/// Reading back a placed block: after `set_block(x, y, z, b)` places `b` in a
/// well-formed chunk, `block_at(x, y, z)` is `b`, every other block reads as
/// before, and `height_at(x, z)` is the column's new height, which is above
/// `y` unless `b` is air.
pub proof fn law_set_block_read_back(before: Chunk, after: Chunk, x: int, y: int, z: int, b: Block)
    requires
        before.wf(),
        after.wf(),
        in_chunk(x, y, z),
        after.blocks_view() == before.blocks_view().update(block_index(x, y, z), b),
    ensures
        after.blocks_view()[block_index(x, y, z)] == b,
        forall|x2: int, y2: int, z2: int|
            in_chunk(x2, y2, z2) && (x2 != x || y2 != y || z2 != z) ==> after.blocks_view()[#[trigger] block_index(
                x2,
                y2,
                z2,
            )] == before.blocks_view()[block_index(x2, y2, z2)],
        after.heights_view()[column_index(x, z)] == column_height(after.blocks_view(), x, z),
        b != Block::Air ==> after.heights_view()[column_index(x, z)] > y,
{
    if b != Block::Air {
        lemma_column_top_at_least(after.blocks_view(), x, y, z, 384);
    }
}

/// A column's top within `n` layers lies above every non-air block below `n`.
proof fn lemma_column_top_at_least(blocks: Seq<Block>, x: int, y: int, z: int, n: nat)
    requires
        0 <= y < n,
        blocks[block_index(x, y, z)] != Block::Air,
    ensures
        column_top(blocks, x, z, n) > y,
    decreases n,
{
    if n - 1 > y && blocks[block_index(x, n - 1, z)] == Block::Air {
        lemma_column_top_at_least(blocks, x, y, z, (n - 1) as nat);
    }
}

/// With a terrain function that answers one height per column, generation
/// depends on the seed and position alone: two chunks generated from the same
/// seed at the same position have the same blocks and heights.
pub proof fn law_generation_is_deterministic<F: Fn(u64, i64, i64) -> u32>(
    c1: Chunk,
    c2: Chunk,
    seed: u64,
    pos: ChunkPos,
    f: F,
)
    requires
        valid_terrain(f),
        deterministic_terrain(f),
        c1.generated_from(seed, pos, f),
        c2.generated_from(seed, pos, f),
    ensures
        c1.heights_view() == c2.heights_view(),
        c1.blocks_view() == c2.blocks_view(),
{
    assert forall|i: int| 0 <= i < 256 implies c1.heights_view()[i] == c2.heights_view()[i] by {
        let x = i % 16;
        let z = i / 16;
        assert(column_index(x, z) == i);
        let h1 = c1.heights_view()[column_index(x, z)];
        let h2 = c2.heights_view()[column_index(x, z)];
        assert(call_ensures(f, (seed, world_coord(pos.x, x), world_coord(pos.z, z)), h1 as u32));
        assert(call_ensures(f, (seed, world_coord(pos.x, x), world_coord(pos.z, z)), h2 as u32));
    }
    assert(c1.heights_view() =~= c2.heights_view());
    assert forall|i: int| 0 <= i < 98304 implies c1.blocks_view()[i] == c2.blocks_view()[i] by {
        let x = i % 16;
        let y = i / 256;
        let z = (i / 16) % 16;
        assert(block_index(x, y, z) == i);
        assert(in_chunk(x, y, z));
        assert(c1.blocks_view()[block_index(x, y, z)] == column_block(
            c1.heights_view()[column_index(x, z)] as int,
            y,
        ));
    }
    assert(c1.blocks_view() =~= c2.blocks_view());
}

/// The sum of heights adds up over concatenation, with a single height summing
/// to itself and no heights to 0.
pub proof fn law_seq_sum(s: Seq<u16>, t: Seq<u16>, h: u16)
    ensures
        seq_sum(Seq::empty()) == 0,
        seq_sum(seq![h]) == h,
        seq_sum(s + t) == seq_sum(s) + seq_sum(t),
    decreases t.len(),
{
    assert(seq![h].drop_last() =~= Seq::<u16>::empty());
    if t.len() > 0 {
        law_seq_sum(s, t.drop_last(), h);
        assert((s + t).drop_last() =~= s + t.drop_last());
    } else {
        assert(s + t =~= s);
    }
}

/// How often a block occurs adds up over concatenation; a single block occurs
/// once if it is the one counted, else not at all.
pub proof fn law_count_block(s: Seq<Block>, t: Seq<Block>, c: Block, b: Block)
    ensures
        count_block(Seq::empty(), b) == 0,
        count_block(seq![c], b) == if c == b { 1int } else { 0int },
        count_block(s + t, b) == count_block(s, b) + count_block(t, b),
        0 <= count_block(s, b) <= s.len(),
    decreases t.len() + s.len(),
{
    assert(seq![c].drop_last() =~= Seq::<Block>::empty());
    assert(count_block(Seq::<Block>::empty(), b) == 0);
    assert(seq![c].last() == c);
    assert(count_block(seq![c], b) == count_block(seq![c].drop_last(), b) + if c == b { 1int } else { 0int });
    if t.len() > 0 {
        law_count_block(s, t.drop_last(), c, b);
        assert((s + t).drop_last() =~= s + t.drop_last());
    } else {
        assert(s + t =~= s);
        if s.len() > 0 {
            law_count_block(s.drop_last(), t, c, b);
        }
    }
}

/// The least height of a nonempty sequence is one of its heights and at most
/// every one of them; the greatest is one of them and at least every one.
pub proof fn law_seq_min_max(s: Seq<u16>)
    requires
        s.len() > 0,
    ensures
        exists|i: int| 0 <= i < s.len() && s[i] == seq_min(s),
        forall|i: int| 0 <= i < s.len() ==> seq_min(s) <= #[trigger] s[i],
        exists|i: int| 0 <= i < s.len() && s[i] == seq_max(s),
        forall|i: int| 0 <= i < s.len() ==> seq_max(s) >= #[trigger] s[i],
    decreases s.len(),
{
    let last = s.len() - 1;
    if s.len() == 1 {
        assert(s.drop_last() =~= Seq::<u16>::empty());
        assert(seq_min(s.drop_last()) == u16::MAX);
        assert(seq_max(s.drop_last()) == 0);
        assert(s.last() == s[0]);
        assert(s[0] == seq_min(s));
        assert(s[0] == seq_max(s));
    } else {
        let init = s.drop_last();
        law_seq_min_max(init);
        assert forall|i: int| 0 <= i < s.len() implies seq_min(s) <= #[trigger] s[i] by {
            if i < last {
                assert(init[i] == s[i]);
            }
        }
        assert forall|i: int| 0 <= i < s.len() implies seq_max(s) >= #[trigger] s[i] by {
            if i < last {
                assert(init[i] == s[i]);
            }
        }
        if s.last() < seq_min(init) {
            assert(s[last] == seq_min(s));
        } else {
            let i = choose|i: int| 0 <= i < init.len() && init[i] == seq_min(init);
            assert(s[i] == seq_min(s));
        }
        if s.last() > seq_max(init) {
            assert(s[last] == seq_max(s));
        } else {
            let i = choose|i: int| 0 <= i < init.len() && init[i] == seq_max(init);
            assert(s[i] == seq_max(s));
        }
    }
}

/// The height of a column, without recursion: it is at most 384, every block
/// of the column at or above it is air, and the block just below it (when it is
/// above 0) is not.
pub proof fn law_column_height_exact(blocks: Seq<Block>, x: int, z: int)
    ensures
        column_height(blocks, x, z) <= 384,
        forall|y: int|
            column_height(blocks, x, z) <= y < 384 ==> blocks[#[trigger] block_index(x, y, z)]
                == Block::Air,
        column_height(blocks, x, z) > 0 ==> blocks[block_index(
            x,
            column_height(blocks, x, z) - 1,
            z,
        )] != Block::Air,
{
    lemma_column_top_bounded(blocks, x, z, 384);
    lemma_column_top_facts(blocks, x, z, 384);
}

/// What the top of a column within `n` layers is, layer by layer.
proof fn lemma_column_top_facts(blocks: Seq<Block>, x: int, z: int, n: nat)
    ensures
        forall|y: int|
            column_top(blocks, x, z, n) <= y < n ==> blocks[#[trigger] block_index(x, y, z)]
                == Block::Air,
        column_top(blocks, x, z, n) > 0 ==> blocks[block_index(x, column_top(blocks, x, z, n) - 1, z)]
            != Block::Air,
    decreases n,
{
    if n > 0 {
        lemma_column_top_facts(blocks, x, z, (n - 1) as nat);
    }
}

impl World {
    /// The seed the world generates from.
    pub closed spec fn seed_of(&self) -> u64 {
        self.seed
    }

    pub fn new(seed: u64) -> (w: World)
        ensures
            w.seed_of() == seed,
    {
        World { seed }
    }

    /// Generates the chunk at `pos`, asking `terrain` for the surface height of
    /// each column from the world's seed and the column's world coordinates.
    pub fn generate_chunk<F: Fn(u64, i64, i64) -> u32>(&self, pos: ChunkPos, terrain: &F) -> (c:
        Chunk)
        requires
            valid_terrain(*terrain),
        ensures
            c.wf(),
            c.generated_from(self.seed_of(), pos, *terrain),
    {
        Chunk::generate(self.seed, pos, terrain)
    }

    /// Surface height of the world column `(world_x, world_z)`: what `terrain`
    /// gives for it.
    pub fn height_at_world<F: Fn(u64, i64, i64) -> u32>(
        &self,
        world_x: i32,
        world_z: i32,
        terrain: &F,
    ) -> (h: u16)
        requires
            valid_terrain(*terrain),
        ensures
            call_ensures(*terrain, (self.seed_of(), world_x as i64, world_z as i64), h as u32),
            1 <= h < 384,
    {
        let chunk_x = div_floor(world_x, CHUNK_SIZE as i32);
        let chunk_z = div_floor(world_z, CHUNK_SIZE as i32);
        let local_x = mod_floor(world_x, CHUNK_SIZE as i32) as usize;
        let local_z = mod_floor(world_z, CHUNK_SIZE as i32) as usize;
        let chunk = self.generate_chunk(ChunkPos { x: chunk_x, z: chunk_z }, terrain);
        proof {
            assert(world_coord(chunk_x, local_x as int) == world_x as i64);
            assert(world_coord(chunk_z, local_z as int) == world_z as i64);
        }
        chunk.height_at(local_x, local_z)
    }

    /// The block at world coordinates: air outside `0..WORLD_HEIGHT`, else the
    /// block of a generated column whose surface height `terrain` gives.
    pub fn block_at_world<F: Fn(u64, i64, i64) -> u32>(
        &self,
        world_x: i32,
        world_y: i32,
        world_z: i32,
        terrain: &F,
    ) -> (b: Block)
        requires
            valid_terrain(*terrain),
        ensures
            (world_y < 0 || world_y >= 384) ==> b == Block::Air,
            0 <= world_y < 384 ==> exists|h: u32|
                #[trigger] call_ensures(
                    *terrain,
                    (self.seed_of(), world_x as i64, world_z as i64),
                    h,
                ) && b == column_block(h as int, world_y as int),
    {
        if world_y < 0 || world_y >= WORLD_HEIGHT as i32 {
            return Block::Air;
        }
        let chunk_x = div_floor(world_x, CHUNK_SIZE as i32);
        let chunk_z = div_floor(world_z, CHUNK_SIZE as i32);
        let local_x = mod_floor(world_x, CHUNK_SIZE as i32) as usize;
        let local_z = mod_floor(world_z, CHUNK_SIZE as i32) as usize;
        let chunk = self.generate_chunk(ChunkPos { x: chunk_x, z: chunk_z }, terrain);
        let b = chunk.block_at(local_x, world_y as usize, local_z);
        proof {
            assert(world_coord(chunk_x, local_x as int) == world_x as i64);
            assert(world_coord(chunk_z, local_z as int) == world_z as i64);
            let h = chunk.heights_view()[column_index(local_x as int, local_z as int)];
            assert(call_ensures(
                *terrain,
                (self.seed_of(), world_x as i64, world_z as i64),
                h as u32,
            ));
        }
        b
    }
}

impl Chunk {
    /// The chunk's blocks, indexed by `block_index`.
    pub closed spec fn blocks_view(&self) -> Seq<Block> {
        self.blocks@
    }

    /// The chunk's height map, indexed by `column_index`.
    pub closed spec fn heights_view(&self) -> Seq<u16> {
        self.heightmap@
    }

    /// The chunk's position on the chunk grid.
    pub closed spec fn pos_view(&self) -> ChunkPos {
        self.pos
    }

    /// Full-size block and height arrays, and every column's recorded height is
    /// one more than its topmost non-air block (0 for an all-air column).
    pub open spec fn wf(&self) -> bool {
        &&& self.blocks_view().len() == 98304
        &&& self.heights_view().len() == 256
        &&& forall|x: int, z: int|
            0 <= x < 16 && 0 <= z < 16 ==> #[trigger] self.heights_view()[column_index(x, z)]
                == column_height(self.blocks_view(), x, z)
    }

    /// The chunk is the one generated at `pos` from `seed` by the height function
    /// `f`: each column's height is an answer of `f` for the column's world
    /// coordinates, and each column is filled as `column_block` says.
    pub open spec fn generated_from<F: Fn(u64, i64, i64) -> u32>(
        &self,
        seed: u64,
        pos: ChunkPos,
        f: F,
    ) -> bool {
        &&& self.pos_view() == pos
        &&& self.heights_view().len() == 256
        &&& self.blocks_view().len() == 98304
        &&& forall|x: int, z: int|
            0 <= x < 16 && 0 <= z < 16 ==> call_ensures(
                f,
                (seed, world_coord(pos.x, x), world_coord(pos.z, z)),
                #[trigger] self.heights_view()[column_index(x, z)] as u32,
            )
        &&& forall|x: int, y: int, z: int|
            in_chunk(x, y, z) ==> #[trigger] self.blocks_view()[block_index(x, y, z)]
                == column_block(self.heights_view()[column_index(x, z)] as int, y)
    }

    fn generate<F: Fn(u64, i64, i64) -> u32>(seed: u64, pos: ChunkPos, terrain: &F) -> (c: Chunk)
        requires
            valid_terrain(*terrain),
        ensures
            c.wf(),
            c.generated_from(seed, pos, *terrain),
    {
        let biome = Biome::Plains;
        let mut blocks = vec![Block::Air; CHUNK_SIZE * WORLD_HEIGHT * CHUNK_SIZE];
        let mut heightmap = vec![0u16; CHUNK_SIZE * CHUNK_SIZE];
        let mut z: usize = 0;
        while z < CHUNK_SIZE
            invariant
                0 <= z <= 16,
                blocks@.len() == 98304,
                heightmap@.len() == 256,
                valid_terrain(*terrain),
                forall|x2: int, z2: int|
                    0 <= x2 < 16 && 0 <= z2 < z ==> call_ensures(
                        *terrain,
                        (seed, world_coord(pos.x, x2), world_coord(pos.z, z2)),
                        #[trigger] heightmap@[column_index(x2, z2)] as u32,
                    ) && 1 <= heightmap@[column_index(x2, z2)] < 384,
                forall|x2: int, y2: int, z2: int|
                    in_chunk(x2, y2, z2) ==> #[trigger] blocks@[block_index(x2, y2, z2)] == if z2
                        < z {
                        column_block(heightmap@[column_index(x2, z2)] as int, y2)
                    } else {
                        Block::Air
                    },
            decreases 16 - z,
        {
            let mut x: usize = 0;
            while x < CHUNK_SIZE
                invariant
                    0 <= z < 16,
                    0 <= x <= 16,
                    blocks@.len() == 98304,
                    heightmap@.len() == 256,
                    valid_terrain(*terrain),
                    forall|x2: int, z2: int|
                        0 <= x2 < 16 && 0 <= z2 < 16 && (z2 < z || (z2 == z && x2 < x))
                            ==> call_ensures(
                            *terrain,
                            (seed, world_coord(pos.x, x2), world_coord(pos.z, z2)),
                            #[trigger] heightmap@[column_index(x2, z2)] as u32,
                        ) && 1 <= heightmap@[column_index(x2, z2)] < 384,
                    forall|x2: int, y2: int, z2: int|
                        in_chunk(x2, y2, z2) ==> #[trigger] blocks@[block_index(x2, y2, z2)]
                            == if z2 < z || (z2 == z && x2 < x) {
                            column_block(heightmap@[column_index(x2, z2)] as int, y2)
                        } else {
                            Block::Air
                        },
                decreases 16 - x,
            {
                assert(-34359738368 <= pos.x as i64 * 16 <= 34359738352);
                assert(-34359738368 <= pos.z as i64 * 16 <= 34359738352);
                let world_x = pos.x as i64 * CHUNK_SIZE as i64 + x as i64;
                let world_z = pos.z as i64 * CHUNK_SIZE as i64 + z as i64;
                let height = terrain(seed, world_x, world_z);
                proof {
                    assert(world_x == world_coord(pos.x, x as int));
                    assert(world_z == world_coord(pos.z, z as int));
                }
                heightmap.set(z * CHUNK_SIZE + x, height as u16);
                let top = height.saturating_sub(1) as usize;
                let mut y: usize = 0;
                while y <= top
                    invariant
                        0 <= z < 16,
                        0 <= x < 16,
                        1 <= height < 384,
                        top == height - 1,
                        0 <= y <= height,
                        blocks@.len() == 98304,
                        heightmap@.len() == 256,
                        heightmap@[column_index(x as int, z as int)] == height,
                        forall|x2: int, y2: int, z2: int|
                            in_chunk(x2, y2, z2) ==> #[trigger] blocks@[block_index(x2, y2, z2)]
                                == if z2 < z || (z2 == z && x2 < x) {
                                column_block(heightmap@[column_index(x2, z2)] as int, y2)
                            } else if z2 == z && x2 == x && y2 < y {
                                column_block(height as int, y2)
                            } else {
                                Block::Air
                            },
                    decreases height - y,
                {
                    let block = if y == top {
                        Block::Grass
                    } else if y >= top.saturating_sub(3) {
                        Block::Dirt
                    } else {
                        Block::Stone
                    };
                    let idx = index(x, y, z);
                    blocks.set(idx, block);
                    y += 1;
                }
                x += 1;
            }
            z += 1;
        }
        let c = Chunk { pos, biome, blocks, heightmap };
        proof {
            assert forall|x: int, z: int| 0 <= x < 16 && 0 <= z < 16 implies
                #[trigger] c.heights_view()[column_index(x, z)] == column_height(c.blocks_view(), x, z)
            by {
                let h = c.heights_view()[column_index(x, z)] as int;
                assert forall|y: int| h <= y < 384 implies
                    c.blocks_view()[block_index(x, y, z)] == Block::Air
                by {
                    assert(in_chunk(x, y, z));
                }
                lemma_column_top_air_above(c.blocks_view(), x, z, h as nat, 384);
                assert(in_chunk(x, h - 1, z));
                assert(c.blocks_view()[block_index(x, h - 1, z)] == Block::Grass);
            }
        }
        c
    }

    pub fn biome(&self) -> (b: Biome)
        ensures
            b == Biome::Plains,
    {
        self.biome
    }

    /// The recorded height of column `(x, z)`.
    pub fn height_at(&self, x: usize, z: usize) -> (h: u16)
        requires
            column_index(x as int, z as int) < self.heights_view().len(),
        ensures
            h == self.heights_view()[column_index(x as int, z as int)],
    {
        assert(self.heightmap@.len() == self.heightmap.len());
        self.heightmap[z * CHUNK_SIZE + x]
    }

    /// The block at chunk-local `(x, y, z)`.
    pub fn block_at(&self, x: usize, y: usize, z: usize) -> (b: Block)
        requires
            block_index(x as int, y as int, z as int) < self.blocks_view().len(),
        ensures
            b == self.blocks_view()[block_index(x as int, y as int, z as int)],
    {
        assert(self.blocks@.len() == self.blocks.len());
        self.blocks[index(x, y, z)]
    }

    /// Replaces the block at `(x, y, z)` and recomputes that column's height;
    /// returns false, changing nothing, when the coordinates lie outside the chunk.
    pub fn set_block(&mut self, x: usize, y: usize, z: usize, block: Block) -> (placed: bool)
        requires
            old(self).wf(),
        ensures
            final(self).wf(),
            placed == in_chunk(x as int, y as int, z as int),
            final(self).pos_view() == old(self).pos_view(),
            placed ==> final(self).blocks_view() == old(self).blocks_view().update(
                block_index(x as int, y as int, z as int),
                block,
            ),
            placed ==> final(self).heights_view() == old(self).heights_view().update(
                column_index(x as int, z as int),
                column_height(final(self).blocks_view(), x as int, z as int) as u16,
            ),
            !placed ==> final(self).blocks_view() == old(self).blocks_view(),
            !placed ==> final(self).heights_view() == old(self).heights_view(),
    {
        if x >= CHUNK_SIZE || y >= WORLD_HEIGHT || z >= CHUNK_SIZE {
            return false;
        }
        let ghost old_blocks = self.blocks@;
        let idx = index(x, y, z);
        self.blocks.set(idx, block);
        proof {
            assert forall|x2: int, z2: int|
                0 <= x2 < 16 && 0 <= z2 < 16 && (x2 != x || z2 != z) implies
                column_height(self.blocks@, x2, z2) == column_height(old_blocks, x2, z2)
            by {
                lemma_column_top_other_column(old_blocks, x as int, y as int, z as int, block, x2, z2, 384);
            }
        }
        self.recompute_height_column(x, z);
        true
    }

    /// Minimum, maximum and sum of the column heights, and the number of blocks
    /// of each kind.
    pub fn stats(&self) -> (s: ChunkStats)
        requires
            self.wf(),
        ensures
            s.min_height == seq_min(self.heights_view()),
            s.max_height == seq_max(self.heights_view()),
            s.sum_height == seq_sum(self.heights_view()),
            s.air == count_block(self.blocks_view(), Block::Air),
            s.grass == count_block(self.blocks_view(), Block::Grass),
            s.dirt == count_block(self.blocks_view(), Block::Dirt),
            s.stone == count_block(self.blocks_view(), Block::Stone),
            s.air + s.grass + s.dirt + s.stone == 98304,
            s.min_height <= s.max_height,
    {
        let mut min_height = u16::MAX;
        let mut max_height = 0u16;
        let mut sum_height: u64 = 0;

        let mut i: usize = 0;
        while i < self.heightmap.len()
            invariant
                self.wf(),
                0 <= i <= 256,
                min_height == seq_min(self.heights_view().take(i as int)),
                max_height == seq_max(self.heights_view().take(i as int)),
                sum_height == seq_sum(self.heights_view().take(i as int)),
                sum_height <= 65535 * i,
            decreases 256 - i,
        {
            let h = self.heightmap[i];
            proof {
                assert(self.heights_view().take(i as int + 1).drop_last()
                    =~= self.heights_view().take(i as int));
            }
            if h < min_height {
                min_height = h;
            }
            if h > max_height {
                max_height = h;
            }
            sum_height += h as u64;
            i += 1;
        }
        proof {
            assert(self.heights_view().take(256) =~= self.heights_view());
        }

        let mut air = 0u64;
        let mut grass = 0u64;
        let mut dirt = 0u64;
        let mut stone = 0u64;

        let mut j: usize = 0;
        while j < self.blocks.len()
            invariant
                self.wf(),
                0 <= j <= 98304,
                air == count_block(self.blocks_view().take(j as int), Block::Air),
                grass == count_block(self.blocks_view().take(j as int), Block::Grass),
                dirt == count_block(self.blocks_view().take(j as int), Block::Dirt),
                stone == count_block(self.blocks_view().take(j as int), Block::Stone),
                air + grass + dirt + stone == j,
            decreases 98304 - j,
        {
            proof {
                assert(self.blocks_view().take(j as int + 1).drop_last()
                    =~= self.blocks_view().take(j as int));
            }
            match self.blocks[j] {
                Block::Air => air += 1,
                Block::Grass => grass += 1,
                Block::Dirt => dirt += 1,
                Block::Stone => stone += 1,
            }
            j += 1;
        }
        proof {
            assert(self.blocks_view().take(98304) =~= self.blocks_view());
        }

        ChunkStats { min_height, max_height, sum_height, air, grass, dirt, stone }
    }

    pub fn pos(&self) -> (p: ChunkPos)
        ensures
            p == self.pos_view(),
    {
        self.pos
    }

    fn recompute_height_column(&mut self, x: usize, z: usize)
        requires
            old(self).blocks_view().len() == 98304,
            old(self).heights_view().len() == 256,
            x < 16,
            z < 16,
        ensures
            final(self).blocks_view() == old(self).blocks_view(),
            final(self).pos_view() == old(self).pos_view(),
            final(self).heights_view() == old(self).heights_view().update(
                column_index(x as int, z as int),
                column_height(old(self).blocks_view(), x as int, z as int) as u16,
            ),
            column_height(old(self).blocks_view(), x as int, z as int) <= 384,
    {
        let mut height = 0u16;
        let mut y: usize = WORLD_HEIGHT;
        while y > 0
            invariant_except_break
                height == 0,
                column_top(self.blocks@, x as int, z as int, y as nat)
                    == column_height(self.blocks@, x as int, z as int),
            invariant
                0 <= y <= 384,
                x < 16,
                z < 16,
                self.blocks@.len() == 98304,
                self.blocks@ == old(self).blocks@,
                self.heightmap@ == old(self).heightmap@,
                self.pos == old(self).pos,
            ensures
                height as int == column_height(self.blocks@, x as int, z as int),
            decreases y,
        {
            y -= 1;
            if self.block_at(x, y, z) != Block::Air {
                height = (y + 1) as u16;
                break;
            }
        }
        proof {
            lemma_column_top_bounded(self.blocks@, x as int, z as int, 384);
        }
        self.heightmap.set(z * CHUNK_SIZE + x, height);
    }
}

/// Splits world column coordinates into the chunk that holds the column and
/// the column's local coordinates inside it.
pub fn world_to_chunk(world_x: i32, world_z: i32) -> (r: (ChunkPos, usize, usize))
    ensures
        r.0.x == floor_div(world_x as int, 16),
        r.0.z == floor_div(world_z as int, 16),
        r.1 == floor_mod(world_x as int, 16),
        r.2 == floor_mod(world_z as int, 16),
        r.1 < 16 && r.2 < 16,
        r.0.x * 16 + r.1 == world_x,
        r.0.z * 16 + r.2 == world_z,
{
    let chunk_x = div_floor(world_x, CHUNK_SIZE as i32);
    let chunk_z = div_floor(world_z, CHUNK_SIZE as i32);
    let local_x = mod_floor(world_x, CHUNK_SIZE as i32) as usize;
    let local_z = mod_floor(world_z, CHUNK_SIZE as i32) as usize;
    (ChunkPos { x: chunk_x, z: chunk_z }, local_x, local_z)
}

/// Integer division rounding towards negative infinity.
fn div_floor(a: i32, b: i32) -> (q: i32)
    requires
        b != 0,
        !(a == i32::MIN && b == -1),
    ensures
        q == floor_div(a as int, b as int),
        b > 0 ==> q * b <= a < q * b + b,
        b < 0 ==> q * b + b < a <= q * b,
{
    let mut q = a / b;
    let r = a % b;
    proof {
        assert(q == (trunc_quot(a as int, b as int)) as i32);
        assert(r == (trunc_rem(a as int, b as int)) as i32);
        lemma_trunc_div(a as int, b as int);
    }
    if r != 0 && ((r > 0) != (b > 0)) {
        q -= 1;
    }
    q
}

/// The remainder of division rounding towards negative infinity: in `0..b`
/// for a positive divisor, in `b+1..=0` for a negative one.
fn mod_floor(a: i32, b: i32) -> (m: i32)
    requires
        b != 0,
        !(a == i32::MIN && b == -1),
    ensures
        m == floor_mod(a as int, b as int),
        b > 0 ==> 0 <= m < b,
        b < 0 ==> b < m <= 0,
{
    let r = a % b;
    proof {
        assert(r == (trunc_rem(a as int, b as int)) as i32);
        lemma_trunc_div(a as int, b as int);
    }
    if r != 0 && ((r > 0) != (b > 0)) {
        r + b
    } else {
        r
    }
}

/// The quotient Rust's `/` computes on integers: rounded towards zero.
pub open spec fn trunc_quot(a: int, b: int) -> int {
    if a >= 0 { a / b } else { -((-a) / b) }
}

/// The remainder Rust's `%` computes on integers: it has the sign of `a`.
pub open spec fn trunc_rem(a: int, b: int) -> int {
    if a >= 0 { a % b } else { -((-a) % b) }
}

/// Euclidean division by a negative divisor, through the positive one.
proof fn lemma_euclid_negative_divisor(x: int, d: int)
    requires
        d < 0,
    ensures
        x / d == -(x / (-d)),
        x % d == x % (-d),
{
    vstd::arithmetic::div_mod::lemma_fundamental_div_mod(x, d);
    assert(0 <= x % d < -d) by (nonlinear_arith)
        requires
            d < 0,
    ;
    assert(x == (-(x / d)) * (-d) + x % d) by (nonlinear_arith)
        requires
            x == d * (x / d) + x % d,
    ;
    vstd::arithmetic::div_mod::lemma_fundamental_div_mod_converse(x, -d, -(x / d), x % d);
}

/// Truncating division and remainder, as Rust computes them on `i32`, against
/// floor division: both fit `i32`, `a == q * b + r` with `|r| < |b|`, and floor
/// division agrees with them unless `r` is nonzero with a sign other than
/// `b`'s, where the floor quotient is one less and its remainder `b` more.
proof fn lemma_trunc_div(a: int, b: int)
    requires
        b != 0,
        i32::MIN <= a <= i32::MAX,
        i32::MIN <= b <= i32::MAX,
        !(a == i32::MIN && b == -1),
    ensures
        ({
            let q = trunc_quot(a, b);
            let r = trunc_rem(a, b);
            &&& i32::MIN <= q <= i32::MAX
            &&& a == q * b + r
            &&& b > 0 ==> -b < r < b
            &&& b < 0 ==> b < r < -b
            &&& (r != 0 && ((r > 0) != (b > 0))) ==> {
                &&& q - 1 == floor_div(a, b)
                &&& r + b == floor_mod(a, b)
                &&& i32::MIN <= q - 1
            }
            &&& !(r != 0 && ((r > 0) != (b > 0))) ==> q == floor_div(a, b) && r == floor_mod(a, b)
        }),
{
    let q = trunc_quot(a, b);
    let r = trunc_rem(a, b);
    let na = if a >= 0 { a } else { -a };
    let nb = if b > 0 { b } else { -b };
    vstd::arithmetic::div_mod::lemma_fundamental_div_mod(na, nb);
    vstd::arithmetic::div_mod::lemma_mod_pos_bound(na, nb);
    let p = na / nb;
    let m = na % nb;
    assert(0 <= p <= na) by (nonlinear_arith)
        requires
            na == nb * p + m,
            0 <= m < nb,
            nb >= 1,
            na >= 0,
    ;
    if b < 0 {
        lemma_euclid_negative_divisor(a, b);
        lemma_euclid_negative_divisor(-a, b);
    }
    // q and r through the quotient and remainder of |a| by |b|.
    assert(q == (if (a >= 0) == (b > 0) { p } else { -p }));
    assert(r == (if a >= 0 { m } else { -m }));
    assert(a == q * b + r) by (nonlinear_arith)
        requires
            na == nb * p + m,
            na == (if a >= 0 { a } else { -a }),
            nb == (if b > 0 { b } else { -b }),
            q == (if (a >= 0) == (b > 0) { p } else { -p }),
            r == (if a >= 0 { m } else { -m }),
    ;
    if p == na && na > 0 {
        // only a divisor of magnitude 1 gives a quotient as large as |a|
        assert(nb == 1) by (nonlinear_arith)
            requires
                na == nb * p + m,
                p == na,
                na > 0,
                nb >= 1,
                m >= 0,
        ;
    }
    assert(-nb < r < nb);
    if m > 0 {
        assert(p < na) by (nonlinear_arith)
            requires
                na == nb * p + m,
                m > 0,
                nb >= 1,
                p >= 0,
        ;
    }
    let adjust = r != 0 && ((r > 0) != (b > 0));
    if adjust {
        assert(a == (q - 1) * b + (r + b)) by (nonlinear_arith)
            requires
                a == q * b + r,
        ;
        assert(a - b * (q - 1) == r + b) by (nonlinear_arith)
            requires
                a == q * b + r,
        ;
    } else {
        assert(a - b * q == r) by (nonlinear_arith)
            requires
                a == q * b + r,
        ;
    }
    if b > 0 {
        if adjust {
            vstd::arithmetic::div_mod::lemma_fundamental_div_mod_converse(a, b, q - 1, r + b);
        } else {
            vstd::arithmetic::div_mod::lemma_fundamental_div_mod_converse(a, b, q, r);
        }
    } else {
        if adjust {
            assert(-a == (q - 1) * (-b) + (-r - b)) by (nonlinear_arith)
                requires
                    a == q * b + r,
            ;
            vstd::arithmetic::div_mod::lemma_fundamental_div_mod_converse(-a, -b, q - 1, -r - b);
        } else {
            assert(-a == q * (-b) + (-r)) by (nonlinear_arith)
                requires
                    a == q * b + r,
            ;
            vstd::arithmetic::div_mod::lemma_fundamental_div_mod_converse(-a, -b, q, -r);
        }
    }
}

/// `a * b` modulo 2^64.
pub open spec fn mul_wrap64(a: u64, b: u64) -> u64 {
    ((a as nat * b as nat) % 0x1_0000_0000_0000_0000) as u64
}

/// `a + b` modulo 2^64.
pub open spec fn add_wrap64(a: u64, b: u64) -> u64 {
    ((a as nat + b as nat) % 0x1_0000_0000_0000_0000) as u64
}

/// Folds the high 31 bits of `v` into its low bits.
pub open spec fn fold_high(v: u64) -> u64 {
    v ^ (v >> 33u64)
}

/// The lattice hash of the terrain noise: the seed mixed with both coordinates
/// (two's complement, multiplied by odd constants), then three rounds of
/// fold-and-multiply, keeping the low 32 bits.
pub open spec fn hash2d_value(seed: u64, x: i64, z: i64) -> u32 {
    let v0 = seed ^ mul_wrap64(x as u64, 0x9E3779B97F4A7C15);
    let v1 = add_wrap64(v0, mul_wrap64(z as u64, 0xC2B2AE3D27D4EB4F));
    let v2 = mul_wrap64(fold_high(v1), 0xFF51AFD7ED558CCD);
    let v3 = mul_wrap64(fold_high(v2), 0xC4CEB9FE1A85EC53);
    (fold_high(v3) & 0xFFFF_FFFF) as u32
}

/// The 64-bit two's-complement pattern of an `i64` is its value modulo 2^64.
pub proof fn lemma_i64_bits(v: i64)
    ensures
        (v as u64) as int == (v as int) % 0x1_0000_0000_0000_0000,
{
    assert((v as u64) as int == if v < 0 {
        v + 0x1_0000_0000_0000_0000
    } else {
        v as int
    }) by (bit_vector);
    let m: int = 0x1_0000_0000_0000_0000;
    if v < 0 {
        vstd::arithmetic::div_mod::lemma_mod_multiples_vanish(1, v as int, m);
        vstd::arithmetic::div_mod::lemma_small_mod((v + m) as nat, m as nat);
    } else {
        vstd::arithmetic::div_mod::lemma_small_mod(v as nat, m as nat);
    }
}

/// Wrapping multiplication of the bit pattern of `v` by `k` is `v * k` modulo 2^64.
pub proof fn lemma_mul_wrap_of_value(bits: u64, v: int, k: u64)
    requires
        bits as int == v % 0x1_0000_0000_0000_0000,
    ensures
        mul_wrap64(bits, k) as int == (v * k) % 0x1_0000_0000_0000_0000,
{
    let m: int = 0x1_0000_0000_0000_0000;
    vstd::arithmetic::div_mod::lemma_mul_mod_noop_left(v, k as int, m);
    vstd::arithmetic::div_mod::lemma_mod_pos_bound(bits as int * k as int, m);
}

/// Folding the high bits of `v` is `v` xor `v / 2^33`.
pub proof fn lemma_fold_high(v: u64)
    ensures
        fold_high(v) == v ^ ((v as int / 0x2_0000_0000) as u64),
{
    assert(v >> 33u64 == v / 0x2_0000_0000) by (bit_vector);
}

/// The terrain noise hash in plain arithmetic: the whole 64-bit seed xor `x`
/// times the first constant, plus `z` times the second, all modulo 2^64 with
/// the coordinates taken by their signed values; then three rounds of
/// `v xor v / 2^33` multiplied by a constant modulo 2^64; and the last fold
/// modulo 2^32.
pub proof fn law_hash2d_arithmetic(seed: u64, x: i64, z: i64)
    ensures
        ({
            let m = 0x1_0000_0000_0000_0000int;
            let v0 = seed ^ (((x as int) * 0x9E3779B97F4A7C15) % m) as u64;
            let v1 = ((v0 as int + (z as int) * 0xC2B2AE3D27D4EB4F) % m) as u64;
            let w1 = v1 ^ ((v1 as int / 0x2_0000_0000) as u64);
            let v2 = ((w1 as int * 0xFF51AFD7ED558CCD) % m) as u64;
            let w2 = v2 ^ ((v2 as int / 0x2_0000_0000) as u64);
            let v3 = ((w2 as int * 0xC4CEB9FE1A85EC53) % m) as u64;
            let w3 = v3 ^ ((v3 as int / 0x2_0000_0000) as u64);
            hash2d_value(seed, x, z) as int == w3 as int % 0x1_0000_0000
        }),
{
    let m = 0x1_0000_0000_0000_0000int;
    lemma_i64_bits(x);
    lemma_i64_bits(z);
    lemma_mul_wrap_of_value(x as u64, x as int, 0x9E3779B97F4A7C15);
    lemma_mul_wrap_of_value(z as u64, z as int, 0xC2B2AE3D27D4EB4F);
    let a = mul_wrap64(x as u64, 0x9E3779B97F4A7C15);
    let v0 = seed ^ a;
    let bz = mul_wrap64(z as u64, 0xC2B2AE3D27D4EB4F);
    vstd::arithmetic::div_mod::lemma_add_mod_noop_right(v0 as int, (z as int) * 0xC2B2AE3D27D4EB4F, m);
    vstd::arithmetic::div_mod::lemma_small_mod(v0 as nat, m as nat);
    let v1 = add_wrap64(v0, bz);
    assert(v1 as int == (v0 as int + (z as int) * 0xC2B2AE3D27D4EB4F) % m);
    lemma_fold_high(v1);
    let v2 = mul_wrap64(fold_high(v1), 0xFF51AFD7ED558CCD);
    lemma_fold_high(v2);
    let v3 = mul_wrap64(fold_high(v2), 0xC4CEB9FE1A85EC53);
    lemma_fold_high(v3);
    let w3 = fold_high(v3);
    assert(w3 & 0xFFFF_FFFF == w3 % 0x1_0000_0000) by (bit_vector);
}

/// Hash of a lattice point of the terrain noise.
pub fn hash2d(seed: u64, x: i64, z: i64) -> (h: u32)
    ensures
        h == hash2d_value(seed, x, z),
{
    let mut v = seed ^ (x as u64).wrapping_mul(0x9E3779B97F4A7C15);
    v = v.wrapping_add((z as u64).wrapping_mul(0xC2B2AE3D27D4EB4F));
    v ^= v >> 33;
    v = v.wrapping_mul(0xFF51AFD7ED558CCD);
    v ^= v >> 33;
    v = v.wrapping_mul(0xC4CEB9FE1A85EC53);
    v ^= v >> 33;
    (v & 0xFFFF_FFFF) as u32
}

fn index(x: usize, y: usize, z: usize) -> (i: usize)
    requires
        block_index(x as int, y as int, z as int) <= usize::MAX,
    ensures
        i == block_index(x as int, y as int, z as int),
{
    (y * CHUNK_SIZE * CHUNK_SIZE) + (z * CHUNK_SIZE) + x
}

/// If the layers `lo..n` of column `(x, z)` are all air, the column's top within
/// `n` layers is its top within `lo` layers.
proof fn lemma_column_top_air_above(blocks: Seq<Block>, x: int, z: int, lo: nat, n: nat)
    requires
        lo <= n,
        forall|y: int| lo <= y < n ==> blocks[block_index(x, y, z)] == Block::Air,
    ensures
        column_top(blocks, x, z, n) == column_top(blocks, x, z, lo),
    decreases n,
{
    if n > lo {
        lemma_column_top_air_above(blocks, x, z, lo, (n - 1) as nat);
    }
}

/// A column's top never exceeds the number of layers looked at.
proof fn lemma_column_top_bounded(blocks: Seq<Block>, x: int, z: int, n: nat)
    ensures
        column_top(blocks, x, z, n) <= n,
    decreases n,
{
    if n > 0 {
        lemma_column_top_bounded(blocks, x, z, (n - 1) as nat);
    }
}

/// Replacing a block leaves the top of every other column unchanged.
proof fn lemma_column_top_other_column(
    blocks: Seq<Block>,
    x: int,
    y: int,
    z: int,
    b: Block,
    x2: int,
    z2: int,
    n: nat,
)
    requires
        in_chunk(x, y, z),
        0 <= x2 < 16,
        0 <= z2 < 16,
        x2 != x || z2 != z,
        n <= 384,
        blocks.len() == 98304,
    ensures
        column_top(blocks.update(block_index(x, y, z), b), x2, z2, n) == column_top(
            blocks,
            x2,
            z2,
            n,
        ),
    decreases n,
{
    if n > 0 {
        lemma_column_top_other_column(blocks, x, y, z, b, x2, z2, (n - 1) as nat);
        let i = block_index(x2, n - 1, z2);
        let j = block_index(x, y, z);
        assert(i != j) by {
            if i == j {
                assert(x2 == x && z2 == z) by (nonlinear_arith)
                    requires
                        (n - 1) * 256 + z2 * 16 + x2 == y * 256 + z * 16 + x,
                        0 <= x < 16,
                        0 <= x2 < 16,
                        0 <= z < 16,
                        0 <= z2 < 16,
                ;
            }
        }
        assert(0 <= i < 98304);
        assert(blocks.update(j, b)[i] == blocks[i]);
    }
}

} // verus!
