//! What the renderer is handed when a chunk needs remeshing: the exact
//! set of visible block faces of the chunk, the deduplicated list of
//! chunks to remesh, the action to take for a mesh-rendered block, and
//! the selection uniform contents. A face is emitted for a cube-rendered
//! visible block against every neighbour that does not fill its own
//! cell, and carries the light level of that neighbouring cell.

use vstd::prelude::*;
use itertools::Itertools;

use crate::blocks::{BlockId, BlockRenderInfo};
use crate::coords::{
    block_index, chunk_contains, immediate_neighbours, lemma_block_index_injective,
    lemma_block_index_range, lemma_chunk_cell, neighbour, DD, DDD,
};
use crate::world::GameWorld;

verus! {

/// One visible face of a cube-rendered block: where it sits, which of
/// the six axis directions it faces, the block's kind, and the light of
/// the cell the face looks into.
#[derive(Copy, Clone, Debug)]
pub struct BlockFace {
    pub position: DDD,
    pub direction: u8,
    pub block: BlockId,
    pub heaven: u8,
    pub hearth: u8,
}

/// Whether the block at `c` fills its cell: false where the world holds
/// no block.
pub open spec fn spec_visible_at(w: GameWorld, c: DDD) -> bool {
    match w.spec_block_at(c) {
        Some(b) => b.block.spec_visible(),
        None => false,
    }
}

/// The kind of the block at `c`; air where the world holds none.
pub open spec fn spec_block_kind(w: GameWorld, c: DDD) -> BlockId {
    match w.spec_block_at(c) {
        Some(b) => b.block,
        None => BlockId::Air,
    }
}

/// The light the face into cell `c` receives: the cell's level, or
/// darkness where the world holds none.
pub open spec fn spec_lighting_at(w: GameWorld, c: DDD) -> (u8, u8) {
    match w.spec_light_at(c) {
        Some(l) => (l.heaven, l.hearth),
        None => (0u8, 0u8),
    }
}

/// Whether meshing emits a face at `c` toward direction `d`: the block
/// there is cube-rendered and fills its cell, and its neighbour in that
/// direction does not.
pub open spec fn face_emitted(w: GameWorld, c: DDD, d: int) -> bool {
    &&& match w.spec_block_at(c) {
        Some(b) => b.block.spec_render_info() is AsBlock && b.block.spec_visible(),
        None => false,
    }
    &&& !spec_visible_at(w, neighbour(c, d))
}

/// Whether `f` is a correct face of chunk `ch` in world `w`.
pub open spec fn face_ok(w: GameWorld, ch: DD, f: BlockFace) -> bool {
    &&& chunk_contains(ch, f.position)
    &&& f.direction < 6
    &&& face_emitted(w, f.position, f.direction as int)
    &&& f.block == spec_block_kind(w, f.position)
    &&& (f.heaven, f.hearth) == spec_lighting_at(w, neighbour(f.position, f.direction as int))
}

/// Whether the face list `s` holds a face at `c` toward direction `d`.
pub open spec fn face_listed(s: Seq<BlockFace>, c: DDD, d: int) -> bool {
    exists|k: int|
        0 <= k < s.len() && (#[trigger] s[k]).position == c && s[k].direction as int == d
}

/// Chunk coordinates whose cells, and their neighbours, stay within
/// the 32-bit coordinate range.
pub open spec fn chunk_in_mesh_range(ch: DD) -> bool {
    &&& -0x800_0000 < ch.0 < 0x7ff_ffff
    &&& -0x800_0000 < ch.1 < 0x7ff_ffff
}

/// Every face of `s` is a correct face of chunk `ch` in world `w`.
pub open spec fn faces_sound(w: GameWorld, ch: DD, s: Seq<BlockFace>) -> bool {
    forall|k: int| 0 <= k < s.len() ==> face_ok(w, ch, #[trigger] s[k])
}

/// Every face meshing emits for chunk `ch` in world `w` is in `s`.
pub open spec fn faces_complete(w: GameWorld, ch: DD, s: Seq<BlockFace>) -> bool {
    forall|c: DDD, d: int|
        chunk_contains(ch, c) && 0 <= d < 6 && #[trigger] face_emitted(w, c, d) ==> face_listed(
            s,
            c,
            d,
        )
}

/// The visible faces of chunk `ch`: one face for every cube-rendered
/// visible block of the chunk against every direction whose neighbour
/// does not fill its cell — all of those and nothing else, each with
/// the block's kind and the neighbouring cell's light.
#[verifier::loop_isolation(false)]
pub fn extract_chunk_faces(world: &GameWorld, ch: DD) -> (r: Vec<BlockFace>)
    requires
        world.wf(),
        chunk_in_mesh_range(ch),
    ensures
        faces_sound(*world, ch, r@),
        faces_complete(*world, ch, r@),
{
    let min_x: i32 = ch.0 * 16;
    let min_z: i32 = ch.1 * 16;
    let mut r: Vec<BlockFace> = Vec::new();
    let mut dx: usize = 0;
    while dx < 16
        invariant
            dx <= 16,
            forall|k: int| 0 <= k < r@.len() ==> face_ok(*world, ch, #[trigger] r@[k]),
            forall|c: DDD, d: int|
                chunk_contains(ch, c) && 0 <= d < 6 && #[trigger] face_emitted(*world, c, d)
                    && block_index(c) < dx * 4096 ==> face_listed(r@, c, d),
        decreases 16 - dx,
    {
        let mut y: usize = 0;
        while y < 256
            invariant
                y <= 256,
                forall|k: int| 0 <= k < r@.len() ==> face_ok(*world, ch, #[trigger] r@[k]),
                forall|c: DDD, d: int|
                    chunk_contains(ch, c) && 0 <= d < 6 && #[trigger] face_emitted(*world, c, d)
                        && block_index(c) < dx * 4096 + y * 16 ==> face_listed(r@, c, d),
            decreases 256 - y,
        {
            let mut dz: usize = 0;
            while dz < 16
                invariant
                    dz <= 16,
                    forall|k: int| 0 <= k < r@.len() ==> face_ok(*world, ch, #[trigger] r@[k]),
                    forall|c: DDD, d: int|
                        chunk_contains(ch, c) && 0 <= d < 6 && #[trigger] face_emitted(
                            *world,
                            c,
                            d,
                        ) && block_index(c) < dx * 4096 + y * 16 + dz ==> face_listed(r@, c, d),
                decreases 16 - dz,
            {
                let c: DDD = (min_x + dx as i32, y as i32, min_z + dz as i32);
                proof {
                    lemma_chunk_cell(ch, dx as int, y as int, dz as int);
                }
                let cell = world.get(c);
                let emit_cell = match cell {
                    Some(b) => b.block.render_info() == BlockRenderInfo::AsBlock
                        && b.block.visible(),
                    None => false,
                };
                if emit_cell {
                    let block_kind = match cell {
                        Some(b) => b.block,
                        None => BlockId::Air,
                    };
                    let ns = immediate_neighbours(c);
                    let mut d: usize = 0;
                    while d < 6
                        invariant
                            d <= 6,
                            forall|k: int|
                                0 <= k < r@.len() ==> face_ok(*world, ch, #[trigger] r@[k]),
                            forall|c2: DDD, d2: int|
                                chunk_contains(ch, c2) && 0 <= d2 < 6 && #[trigger] face_emitted(
                                    *world,
                                    c2,
                                    d2,
                                ) && block_index(c2) < dx * 4096 + y * 16 + dz ==> face_listed(
                                    r@,
                                    c2,
                                    d2,
                                ),
                            forall|d2: int|
                                0 <= d2 < d && #[trigger] face_emitted(*world, c, d2)
                                    ==> face_listed(r@, c, d2),
                        decreases 6 - d,
                    {
                        let n = ns[d];
                        let n_visible = match world.get(n) {
                            Some(b) => b.block.visible(),
                            None => false,
                        };
                        if !n_visible {
                            let ghost old_r = r@;
                            let (heaven, hearth) = match world.get_light_level(n) {
                                Some(l) => (l.heaven, l.hearth),
                                None => (0u8, 0u8),
                            };
                            r.push(
                                BlockFace {
                                    position: c,
                                    direction: d as u8,
                                    block: block_kind,
                                    heaven,
                                    hearth,
                                },
                            );
                            proof {
                                assert forall|c2: DDD, d2: int|
                                    face_listed(old_r, c2, d2) implies face_listed(
                                    r@,
                                    c2,
                                    d2,
                                ) by {
                                    let k = choose|k: int|
                                        0 <= k < old_r.len() && (#[trigger] old_r[k]).position
                                            == c2 && old_r[k].direction as int == d2;
                                    assert(r@[k] == old_r[k]);
                                }
                                assert(r@[r@.len() - 1].position == c && r@[r@.len() - 1].direction
                                    as int == d as int);
                            }
                        }
                        d = d + 1;
                    }
                }
                proof {
                    assert forall|c2: DDD, d2: int|
                        chunk_contains(ch, c2) && 0 <= d2 < 6 && #[trigger] face_emitted(
                        *world,
                        c2,
                        d2,
                    ) && block_index(c2) < dx * 4096 + y * 16 + (dz + 1) implies face_listed(
                        r@,
                        c2,
                        d2,
                    ) by {
                        if block_index(c2) == dx * 4096 + y * 16 + dz {
                            lemma_block_index_injective(c2, c);
                        }
                    }
                }
                dz = dz + 1;
            }
            y = y + 1;
        }
        dx = dx + 1;
    }
    proof {
        assert forall|c: DDD, d: int|
            chunk_contains(ch, c) && 0 <= d < 6 && #[trigger] face_emitted(*world, c, d)
                implies face_listed(r@, c, d) by {
            lemma_block_index_range(c);
        }
    }
    r
}

/// A remeshing request raised by a world change: the chunk to rebuild.
#[derive(Copy, Clone, Debug)]
pub enum RemeshEvent {
    Remesh(DD),
}

/// The chunk a remeshing request names.
pub open spec fn event_coord(e: RemeshEvent) -> DD {
    match e {
        RemeshEvent::Remesh(d) => d,
    }
}

/// The subsequence keeping only the first occurrence of each
/// coordinate, in order.
pub open spec fn dedup_first(s: Seq<DD>) -> Seq<DD>
    decreases s.len(),
{
    if s.len() == 0 {
        Seq::empty()
    } else if s.drop_last().contains(s.last()) {
        dedup_first(s.drop_last())
    } else {
        dedup_first(s.drop_last()).push(s.last())
    }
}

/// Relies on itertools' `unique` adaptor: it yields each coordinate the
/// first time its value appears, in input order, and drops later
/// repeats.
#[verifier::external_body]
fn unique_coords(v: Vec<DD>) -> (r: Vec<DD>)
    ensures
        r@ == dedup_first(v@),
{
    v.into_iter().unique().collect()
}

/// The coordinates a batch of remeshing requests names, in order.
pub open spec fn spec_event_coords(events: Seq<RemeshEvent>) -> Seq<DD> {
    events.map_values(|e: RemeshEvent| event_coord(e))
}

/// The subsequence of chunk coordinates that world `w` holds.
pub open spec fn chunks_held(s: Seq<DD>, w: GameWorld) -> Seq<DD>
    decreases s.len(),
{
    if s.len() == 0 {
        Seq::empty()
    } else if w.spec_has_chunk(s.last()) {
        chunks_held(s.drop_last(), w).push(s.last())
    } else {
        chunks_held(s.drop_last(), w)
    }
}

/// The chunks a batch of remeshing requests rebuilds: each requested
/// coordinate once, first occurrences in order, chunks the world does
/// not hold left out.
pub open spec fn spec_remesh_targets(events: Seq<RemeshEvent>, w: GameWorld) -> Seq<DD> {
    chunks_held(dedup_first(spec_event_coords(events)), w)
}

/// The chunks to rebuild for a batch of remeshing requests.
pub fn remesh_targets(events: &Vec<RemeshEvent>, world: &GameWorld) -> (r: Vec<DD>)
    ensures
        r@ == spec_remesh_targets(events@, *world),
{
    let mut coords: Vec<DD> = Vec::new();
    let n = events.len();
    let mut k: usize = 0;
    while k < n
        invariant
            n == events@.len(),
            k <= n,
            coords@ =~= spec_event_coords(events@.subrange(0, k as int)),
        decreases n - k,
    {
        match events[k] {
            RemeshEvent::Remesh(d) => coords.push(d),
        }
        proof {
            assert(coords@ =~= spec_event_coords(events@.subrange(0, k as int + 1)));
        }
        k = k + 1;
    }
    proof {
        assert(events@.subrange(0, n as int) =~= events@);
        assert(coords@ =~= spec_event_coords(events@));
    }
    let unique: Vec<DD> = unique_coords(coords);
    let mut r: Vec<DD> = Vec::new();
    let m = unique.len();
    let mut j: usize = 0;
    while j < m
        invariant
            m == unique@.len(),
            j <= m,
            r@ =~= chunks_held(unique@.subrange(0, j as int), *world),
        decreases m - j,
    {
        let ch = unique[j];
        let keep = world.contains_chunk(ch);
        if keep {
            r.push(ch);
        }
        proof {
            let prefix = unique@.subrange(0, j as int + 1);
            assert(prefix.drop_last() =~= unique@.subrange(0, j as int));
            assert(prefix.last() == unique@[j as int]);
            assert(r@ =~= chunks_held(prefix, *world));
        }
        j = j + 1;
    }
    proof {
        assert(unique@.subrange(0, m as int) =~= unique@);
    }
    r
}

/// Each coordinate a batch of remeshing requests rebuilds comes from
/// the batch itself.
proof fn lemma_dedup_first_subset(s: Seq<DD>)
    ensures
        forall|i: int|
            0 <= i < dedup_first(s).len() ==> s.contains(#[trigger] dedup_first(s)[i]),
    decreases s.len(),
{
    if s.len() > 0 {
        lemma_dedup_first_subset(s.drop_last());
        assert forall|i: int|
            0 <= i < dedup_first(s).len() implies s.contains(#[trigger] dedup_first(s)[i]) by {
            if i < dedup_first(s.drop_last()).len() {
                let x = dedup_first(s.drop_last())[i];
                let j = choose|j: int| 0 <= j < s.drop_last().len() && s.drop_last()[j] == x;
                assert(s[j] == x);
            } else {
                assert(s[s.len() - 1] == s.last());
            }
        }
    }
}

/// Each coordinate kept by the held-chunk filter comes from its input.
proof fn lemma_chunks_held_subset(s: Seq<DD>, w: GameWorld)
    ensures
        forall|i: int|
            0 <= i < chunks_held(s, w).len() ==> s.contains(#[trigger] chunks_held(s, w)[i]),
    decreases s.len(),
{
    if s.len() > 0 {
        lemma_chunks_held_subset(s.drop_last(), w);
        assert forall|i: int|
            0 <= i < chunks_held(s, w).len() implies s.contains(
            #[trigger] chunks_held(s, w)[i],
        ) by {
            if i < chunks_held(s.drop_last(), w).len() {
                let x = chunks_held(s.drop_last(), w)[i];
                let j = choose|j: int| 0 <= j < s.drop_last().len() && s.drop_last()[j] == x;
                assert(s[j] == x);
            } else {
                assert(s[s.len() - 1] == s.last());
            }
        }
    }
}

/// The meshes a batch of remeshing requests rebuilds: for each chunk the
/// batch names once and the world holds, in first-occurrence order, the
/// chunk's exact visible faces.
pub fn extract_chunks(world: &GameWorld, events: &Vec<RemeshEvent>) -> (r: Vec<(DD, Vec<
    BlockFace,
>)>)
    requires
        world.wf(),
        forall|k: int|
            0 <= k < events@.len() ==> chunk_in_mesh_range(event_coord(#[trigger] events@[k])),
    ensures
        r@.len() == spec_remesh_targets(events@, *world).len(),
        forall|k: int|
            0 <= k < r@.len() ==> (#[trigger] r@[k]).0 == spec_remesh_targets(
                events@,
                *world,
            )[k],
        forall|k: int|
            0 <= k < r@.len() ==> faces_sound(*world, (#[trigger] r@[k]).0, r@[k].1@)
                && faces_complete(*world, r@[k].0, r@[k].1@),
{
    let targets = remesh_targets(events, world);
    proof {
        lemma_dedup_first_subset(spec_event_coords(events@));
        lemma_chunks_held_subset(dedup_first(spec_event_coords(events@)), *world);
        assert forall|i: int|
            0 <= i < targets@.len() implies chunk_in_mesh_range(#[trigger] targets@[i]) by {
            let coords = spec_event_coords(events@);
            let x = targets@[i];
            let j = choose|j: int| 0 <= j < dedup_first(coords).len() && dedup_first(coords)[j] == x;
            let j2 = choose|j2: int| 0 <= j2 < coords.len() && coords[j2] == x;
            assert(coords[j2] == event_coord(events@[j2]));
        }
    }
    let mut r: Vec<(DD, Vec<BlockFace>)> = Vec::new();
    let n = targets.len();
    let mut k: usize = 0;
    while k < n
        invariant
            n == targets@.len(),
            world.wf(),
            forall|i: int| 0 <= i < n ==> chunk_in_mesh_range(#[trigger] targets@[i]),
            targets@ == spec_remesh_targets(events@, *world),
            k <= n,
            r@.len() == k,
            forall|i: int| 0 <= i < k ==> (#[trigger] r@[i]).0 == targets@[i],
            forall|i: int|
                0 <= i < k ==> faces_sound(*world, (#[trigger] r@[i]).0, r@[i].1@)
                    && faces_complete(*world, r@[i].0, r@[i].1@),
        decreases n - k,
    {
        let ch = targets[k];
        let faces = extract_chunk_faces(world, ch);
        r.push((ch, faces));
        k = k + 1;
    }
    r
}

/// What the remesher does for one mesh-rendered block: spawn a fresh
/// mesh entity, move the one it has, reattach the mesh to an entity
/// that lost it, or nothing.
#[derive(Copy, Clone, PartialEq, Eq, Structural, Debug)]
pub enum RemeshAction {
    SpawnMesh,
    MoveMesh,
    ReattachMesh,
    Nothing,
}

/// The remesher's decision for one block: only mesh-rendered blocks get
/// an action; a block without an entity gets one spawned once the mesh
/// storage is loaded; one whose entity still carries its mesh is moved;
/// one whose entity lost its mesh has it reattached, again only once
/// the storage is loaded.
pub fn remesh_action(
    render_info: BlockRenderInfo,
    entity: u64,
    mesh_component_present: bool,
    storage_loaded: bool,
) -> (r: RemeshAction)
    ensures
        r == (if !(render_info is AsMesh) {
            RemeshAction::Nothing
        } else if entity == 0 {
            if storage_loaded {
                RemeshAction::SpawnMesh
            } else {
                RemeshAction::Nothing
            }
        } else if mesh_component_present {
            RemeshAction::MoveMesh
        } else if storage_loaded {
            RemeshAction::ReattachMesh
        } else {
            RemeshAction::Nothing
        }),
{
    if render_info != BlockRenderInfo::AsMesh {
        RemeshAction::Nothing
    } else if entity == 0 {
        if storage_loaded {
            RemeshAction::SpawnMesh
        } else {
            RemeshAction::Nothing
        }
    } else if mesh_component_present {
        RemeshAction::MoveMesh
    } else if storage_loaded {
        RemeshAction::ReattachMesh
    } else {
        RemeshAction::Nothing
    }
}

/// What the player points at: the selected cube and the cube across
/// the face pointed at.
#[derive(Copy, Clone, Debug)]
pub struct Selection {
    pub cube: DDD,
    pub face: DDD,
}

/// The sentinel coordinate the shader reads as "no selection".
pub const NO_SELECTION: i32 = -9999;

/// The eight words of the selection uniform: the selected cube and the
/// cube across the pointed face, each padded to four words; a cleared
/// selection is the sentinel in every coordinate.
pub fn selection_uniform_contents(selection: &Option<Selection>) -> (r: [i32; 8])
    ensures
        r@.len() == 8,
        (match selection {
            None => r@ =~= seq![
                NO_SELECTION,
                NO_SELECTION,
                NO_SELECTION,
                0i32,
                NO_SELECTION,
                NO_SELECTION,
                NO_SELECTION,
                0i32,
            ],
            Some(s) => r@ =~= seq![
                s.cube.0,
                s.cube.1,
                s.cube.2,
                0i32,
                s.face.0,
                s.face.1,
                s.face.2,
                0i32,
            ],
        }),
{
    match selection {
        None => [NO_SELECTION, NO_SELECTION, NO_SELECTION, 0, NO_SELECTION, NO_SELECTION, NO_SELECTION, 0],
        Some(s) => [s.cube.0, s.cube.1, s.cube.2, 0, s.face.0, s.face.1, s.face.2, 0],
    }
}

/// Relies on bytemuck's `bytes_of`: the in-memory representation of
/// eight 32-bit words is exactly 32 bytes.
#[verifier::external_body]
fn uniform_bytes(contents: &[i32; 8]) -> (r: Vec<u8>)
    ensures
        r@.len() == 32,
{
    bytemuck::bytes_of(contents).to_vec()
}

/// The selection uniform as the 32 bytes handed to the GPU buffer.
pub fn selection_uniform_bytes(selection: &Option<Selection>) -> (r: Vec<u8>)
    ensures
        r@.len() == 32,
{
    let contents = selection_uniform_contents(selection);
    uniform_bytes(&contents)
}

} // verus!
