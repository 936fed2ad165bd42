//! Terrain streaming around the player: which chunk meshes to create and which
//! to drop, given the chunk the player stands in and the chunks already loaded.

use vstd::prelude::*;

verus! {

/// Chunks within this many chunks of the player's chunk (on each axis) are wanted.
pub const CHUNK_RADIUS: i32 = 2;
/// Loaded chunks farther than this many chunks away (on either axis) are dropped.
pub const KEEP_RADIUS: i32 = 3;
/// At most this many chunks are created per frame.
pub const MAX_SPAWNS_PER_FRAME: usize = 2;
/// Number of chunks in the wanted window.
pub const WINDOW_CHUNKS: usize = 25;

/// A chunk position on the terrain grid.
pub type GridPos = (i32, i32);

/// What to do this frame: chunks to create, in order, and chunks to drop.
pub struct StreamPlan {
    pub spawn: Vec<GridPos>,
    pub despawn: Vec<GridPos>,
}

/// The `k`-th cell of the wanted window around `center`, rows of increasing z,
/// each of increasing x.
pub open spec fn window_cell(center: GridPos, k: int) -> GridPos {
    ((center.0 + k % 5 - 2) as i32, (center.1 + k / 5 - 2) as i32)
}

/// The first `k` window cells that are not loaded, in window order.
pub open spec fn missing_cells(center: GridPos, loaded: Seq<GridPos>, k: nat) -> Seq<GridPos>
    decreases k,
{
    if k == 0 {
        Seq::empty()
    } else {
        let c = window_cell(center, k - 1);
        let rest = missing_cells(center, loaded, (k - 1) as nat);
        if loaded.contains(c) {
            rest
        } else {
            rest.push(c)
        }
    }
}

/// Chunk `p` lies within the keep box around `center`.
pub open spec fn in_keep_range(center: GridPos, p: GridPos) -> bool {
    &&& center.0 - 3 <= p.0 <= center.0 + 3
    &&& center.1 - 3 <= p.1 <= center.1 + 3
}

/// The chunks of `s` outside the keep box, in order.
pub open spec fn far_chunks(center: GridPos, s: Seq<GridPos>) -> Seq<GridPos>
    decreases s.len(),
{
    if s.len() == 0 {
        Seq::empty()
    } else {
        let rest = far_chunks(center, s.drop_last());
        if in_keep_range(center, s.last()) {
            rest
        } else {
            rest.push(s.last())
        }
    }
}

/// The center is far enough from the ends of `i32` for the keep box.
pub open spec fn center_in_range(center: GridPos) -> bool {
    &&& i32::MIN + 3 <= center.0 <= i32::MAX - 3
    &&& i32::MIN + 3 <= center.1 <= i32::MAX - 3
}

/// Every missing cell is a window cell within `CHUNK_RADIUS` of the center on
/// both axes, and none of them is loaded.
pub proof fn law_missing_cells_are_unloaded_window_cells(
    center: GridPos,
    loaded: Seq<GridPos>,
    k: nat,
)
    requires
        center_in_range(center),
        k <= 25,
    ensures
        missing_cells(center, loaded, k).len() <= k,
        forall|i: int|
            0 <= i < missing_cells(center, loaded, k).len() ==> {
                let p = #[trigger] missing_cells(center, loaded, k)[i];
                &&& !loaded.contains(p)
                &&& center.0 - 2 <= p.0 <= center.0 + 2
                &&& center.1 - 2 <= p.1 <= center.1 + 2
            },
    decreases k,
{
    if k > 0 {
        law_missing_cells_are_unloaded_window_cells(center, loaded, (k - 1) as nat);
        let j = k - 1;
        vstd::arithmetic::div_mod::lemma_fundamental_div_mod(j, 5);
        assert(0 <= j / 5 < 5) by {
            vstd::arithmetic::div_mod::lemma_fundamental_div_mod(j, 5);
        }
    }
}

/// The dropped chunks are exactly the chunks of `s` outside the keep box: each
/// of them is in `s` and outside the box, and each chunk of `s` outside the box
/// is among them.
pub proof fn law_far_chunks_exact(center: GridPos, s: Seq<GridPos>)
    ensures
        forall|i: int|
            0 <= i < far_chunks(center, s).len() ==> s.contains(#[trigger] far_chunks(center, s)[i])
                && !in_keep_range(center, far_chunks(center, s)[i]),
        forall|i: int|
            0 <= i < s.len() && !in_keep_range(center, #[trigger] s[i]) ==> far_chunks(
                center,
                s,
            ).contains(s[i]),
    decreases s.len(),
{
    if s.len() > 0 {
        let init = s.drop_last();
        law_far_chunks_exact(center, init);
        let f = far_chunks(center, s);
        let fi = far_chunks(center, init);
        assert forall|i: int| 0 <= i < f.len() implies s.contains(#[trigger] f[i]) && !in_keep_range(
            center,
            f[i],
        ) by {
            if i < fi.len() {
                assert(f[i] == fi[i]);
                let k = choose|k: int| 0 <= k < init.len() && init[k] == fi[i];
                assert(s[k] == f[i]);
            } else {
                assert(s[s.len() - 1] == f[i]);
            }
        }
        assert forall|i: int| 0 <= i < s.len() && !in_keep_range(center, #[trigger] s[i]) implies f.contains(
            s[i],
        ) by {
            if i < s.len() - 1 {
                assert(init[i] == s[i]);
                let k = choose|k: int| 0 <= k < fi.len() && fi[k] == s[i];
                assert(f[k] == s[i]);
            } else {
                assert(f[f.len() - 1] == s[i]);
            }
        }
    }
}

/// The position of a chunk in the wanted window around `center`, counted row by
/// row.
pub open spec fn window_key(center: GridPos, p: GridPos) -> int {
    (p.1 - center.1 + 2) * 5 + (p.0 - center.0 + 2)
}

/// Facts of the `k`-th window cell: its offsets and its key.
proof fn lemma_window_cell(center: GridPos, k: int)
    requires
        center_in_range(center),
        0 <= k < 25,
    ensures
        window_cell(center, k).0 == center.0 + k % 5 - 2,
        window_cell(center, k).1 == center.1 + k / 5 - 2,
        0 <= k % 5 < 5,
        0 <= k / 5 < 5,
        window_key(center, window_cell(center, k)) == k,
{
    vstd::arithmetic::div_mod::lemma_fundamental_div_mod(k, 5);
    vstd::arithmetic::div_mod::lemma_mod_pos_bound(k, 5);
    assert(0 <= k / 5 < 5) by (nonlinear_arith)
        requires
            k == 5 * (k / 5) + k % 5,
            0 <= k % 5 < 5,
            0 <= k < 25,
    ;
}

/// Missing cells come in window order and are window cells before `k`.
proof fn lemma_missing_cells_keys(center: GridPos, loaded: Seq<GridPos>, k: nat)
    requires
        center_in_range(center),
        k <= 25,
    ensures
        forall|i: int|
            0 <= i < missing_cells(center, loaded, k).len() ==> 0 <= #[trigger] window_key(
                center,
                missing_cells(center, loaded, k)[i],
            ) < k,
        forall|i: int, j: int|
            0 <= i < j < missing_cells(center, loaded, k).len() ==> window_key(
                center,
                #[trigger] missing_cells(center, loaded, k)[i],
            ) < window_key(center, #[trigger] missing_cells(center, loaded, k)[j]),
        forall|j: int|
            0 <= j < k && !loaded.contains(#[trigger] window_cell(center, j)) ==> missing_cells(
                center,
                loaded,
                k,
            ).contains(window_cell(center, j)),
    decreases k,
{
    if k > 0 {
        lemma_missing_cells_keys(center, loaded, (k - 1) as nat);
        lemma_window_cell(center, k - 1);
        let rest = missing_cells(center, loaded, (k - 1) as nat);
        let m = missing_cells(center, loaded, k);
        assert forall|j: int| 0 <= j < k && !loaded.contains(#[trigger] window_cell(center, j)) implies m.contains(
            window_cell(center, j),
        ) by {
            if j < k - 1 {
                let t = choose|t: int| 0 <= t < rest.len() && rest[t] == window_cell(center, j);
                assert(m[t] == rest[t]);
            } else {
                assert(m[m.len() - 1] == window_cell(center, j));
            }
        }
    }
}

/// The missing cells of the window, exactly: every one of them is a cell
/// within two chunks of the center on both axes that is not loaded, every such
/// cell is among them, and they come row by row (increasing z), each row by
/// increasing x.
pub proof fn law_missing_cells_exact(center: GridPos, loaded: Seq<GridPos>)
    requires
        center_in_range(center),
    ensures
        ({
            let m = missing_cells(center, loaded, 25);
            &&& forall|i: int|
                0 <= i < m.len() ==> {
                    let p = #[trigger] m[i];
                    &&& !loaded.contains(p)
                    &&& center.0 - 2 <= p.0 <= center.0 + 2
                    &&& center.1 - 2 <= p.1 <= center.1 + 2
                }
            &&& forall|dx: int, dz: int|
                -2 <= dx <= 2 && -2 <= dz <= 2 && !loaded.contains(
                    ((center.0 + dx) as i32, (center.1 + dz) as i32),
                ) ==> #[trigger] m.contains(((center.0 + dx) as i32, (center.1 + dz) as i32))
            &&& forall|i: int, j: int|
                0 <= i < j < m.len() ==> (#[trigger] m[i]).1 < (#[trigger] m[j]).1 || (m[i].1
                    == m[j].1 && m[i].0 < m[j].0)
        }),
{
    let m = missing_cells(center, loaded, 25);
    law_missing_cells_are_unloaded_window_cells(center, loaded, 25);
    lemma_missing_cells_keys(center, loaded, 25);
    assert forall|dx: int, dz: int|
        -2 <= dx <= 2 && -2 <= dz <= 2 && !loaded.contains(
            ((center.0 + dx) as i32, (center.1 + dz) as i32),
        ) implies #[trigger] m.contains(((center.0 + dx) as i32, (center.1 + dz) as i32)) by {
        let k = (dz + 2) * 5 + (dx + 2);
        lemma_window_cell(center, k);
        vstd::arithmetic::div_mod::lemma_fundamental_div_mod_converse(k, 5, dz + 2, dx + 2);
        assert(window_cell(center, k) == ((center.0 + dx) as i32, (center.1 + dz) as i32));
    }
    assert forall|i: int, j: int| 0 <= i < j < m.len() implies (#[trigger] m[i]).1 < (
    #[trigger] m[j]).1 || (m[i].1 == m[j].1 && m[i].0 < m[j].0) by {
        assert(window_key(center, m[i]) < window_key(center, m[j]));
        assert(-2 <= m[i].0 - center.0 <= 2 && -2 <= m[j].0 - center.0 <= 2);
    }
}

/// The dropped chunks, with the keep box written out: a chunk of `s` is dropped
/// exactly when it lies more than three chunks from the center along x or
/// along z, and every dropped chunk is one of `s`.
pub proof fn law_despawn_beyond_keep_box(center: GridPos, s: Seq<GridPos>)
    ensures
        forall|i: int|
            0 <= i < s.len() ==> (far_chunks(center, s).contains(#[trigger] s[i]) <==> (s[i].0
                < center.0 - 3 || s[i].0 > center.0 + 3 || s[i].1 < center.1 - 3 || s[i].1
                > center.1 + 3)),
        forall|i: int|
            0 <= i < far_chunks(center, s).len() ==> s.contains(
                #[trigger] far_chunks(center, s)[i],
            ),
{
    law_far_chunks_exact(center, s);
    let f = far_chunks(center, s);
    assert forall|i: int| 0 <= i < s.len() implies (f.contains(#[trigger] s[i]) <==> (s[i].0
        < center.0 - 3 || s[i].0 > center.0 + 3 || s[i].1 < center.1 - 3 || s[i].1 > center.1
        + 3)) by {
        if f.contains(s[i]) {
            let k = choose|k: int| 0 <= k < f.len() && f[k] == s[i];
            assert(!in_keep_range(center, f[k]));
        }
    }
}

/// Whether `p` occurs in `v`.
fn contains_pos(v: &Vec<GridPos>, p: GridPos) -> (r: bool)
    ensures
        r == v@.contains(p),
{
    let mut i: usize = 0;
    while i < v.len()
        invariant
            0 <= i <= v@.len(),
            forall|j: int| 0 <= j < i ==> v@[j] != p,
        decreases v@.len() - i,
    {
        if v[i].0 == p.0 && v[i].1 == p.1 {
            proof {
                assert(v@[i as int] == p);
            }
            return true;
        }
        i += 1;
    }
    false
}

/// The window cells around `center` that are not loaded yet, in window order.
pub fn chunks_needed(center: GridPos, loaded: &Vec<GridPos>) -> (needed: Vec<GridPos>)
    requires
        center_in_range(center),
    ensures
        needed@ == missing_cells(center, loaded@, 25),
{
    let mut needed: Vec<GridPos> = Vec::new();
    let mut dz: i32 = -CHUNK_RADIUS;
    while dz <= CHUNK_RADIUS
        invariant
            center_in_range(center),
            -2 <= dz <= 3,
            needed@ == missing_cells(center, loaded@, ((dz + 2) * 5) as nat),
        decreases 3 - dz,
    {
        let mut dx: i32 = -CHUNK_RADIUS;
        while dx <= CHUNK_RADIUS
            invariant
                center_in_range(center),
                -2 <= dz <= 2,
                -2 <= dx <= 3,
                needed@ == missing_cells(center, loaded@, ((dz + 2) * 5 + dx + 2) as nat),
            decreases 3 - dx,
        {
            let c = (center.0 + dx, center.1 + dz);
            proof {
                let k = (dz + 2) * 5 + dx + 2;
                vstd::arithmetic::div_mod::lemma_fundamental_div_mod_converse(
                    k,
                    5,
                    dz + 2,
                    dx + 2,
                );
                assert(c == window_cell(center, k));
            }
            if !contains_pos(loaded, c) {
                needed.push(c);
            }
            dx += 1;
        }
        dz += 1;
    }
    needed
}

/// Plans one frame of streaming: the loaded chunks outside the keep box are
/// dropped, and the first missing window cells, at most two, are created.
pub fn plan_terrain_stream(center: GridPos, loaded: &Vec<GridPos>) -> (plan: StreamPlan)
    requires
        center_in_range(center),
    ensures
        plan.despawn@ == far_chunks(center, loaded@),
        ({
            let needed = missing_cells(center, loaded@, 25);
            plan.spawn@ == needed.take(
                if needed.len() < 2 { needed.len() as int } else { 2 },
            )
        }),
{
    let needed = chunks_needed(center, loaded);

    let keep_min = (center.0 - (CHUNK_RADIUS + 1), center.1 - (CHUNK_RADIUS + 1));
    let keep_max = (center.0 + (CHUNK_RADIUS + 1), center.1 + (CHUNK_RADIUS + 1));
    let mut despawn: Vec<GridPos> = Vec::new();
    let mut i: usize = 0;
    while i < loaded.len()
        invariant
            0 <= i <= loaded@.len(),
            keep_min.0 == center.0 - 3,
            keep_min.1 == center.1 - 3,
            keep_max.0 == center.0 + 3,
            keep_max.1 == center.1 + 3,
            despawn@ == far_chunks(center, loaded@.take(i as int)),
        decreases loaded@.len() - i,
    {
        let pos = loaded[i];
        proof {
            assert(loaded@.take(i as int + 1).drop_last() =~= loaded@.take(i as int));
        }
        if pos.0 < keep_min.0 || pos.0 > keep_max.0 || pos.1 < keep_min.1 || pos.1 > keep_max.1 {
            despawn.push(pos);
        }
        i += 1;
    }
    proof {
        assert(loaded@.take(loaded@.len() as int) =~= loaded@);
    }

    let mut spawn: Vec<GridPos> = Vec::new();
    let mut j: usize = 0;
    while j < needed.len()
        invariant
            0 <= j <= needed@.len(),
            j <= 2,
            spawn@ == needed@.take(j as int),
        ensures
            spawn@ == needed@.take(j as int),
            j == needed@.len() || j == 2,
        decreases needed@.len() - j,
    {
        if spawn.len() >= MAX_SPAWNS_PER_FRAME {
            break;
        }
        proof {
            assert(needed@.take(j as int + 1) =~= needed@.take(j as int).push(needed@[j as int]));
        }
        spawn.push(needed[j]);
        j += 1;
    }

    StreamPlan { spawn, despawn }
}

} // verus!
