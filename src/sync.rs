//! The per-tick reconciliation of changed tilemap chunks: for each chunk,
//! decide between skipping it, rewriting its bound tile data in place, and
//! creating its tile data image, material and (shared) mesh.

use crate::mesh_cache::{MeshCacheView, MeshHandle, MeshSize, TilemapChunkMeshCache};
use crate::tile::{pack_tiles, packed, TileRenderData};
use vstd::prelude::*;

verus! {

/// Why a chunk was left untouched this tick.
#[derive(Clone, Copy, Debug, PartialEq, Eq)]
pub enum SyncWarning {
    /// The chunk's parent grid could not be found.
    MissingParent,
    /// The parent grid has no chunk renderer (tileset and alpha mode).
    MissingDescriptor,
    /// The bound material's tile data image could not be found.
    MissingTextureResource,
    /// The tile data image holds no pixel buffer.
    MissingBackingBuffer,
}

/// What the host found of a chunk's parent grid.
#[derive(Clone, Copy, Debug, PartialEq, Eq)]
pub enum GridLookup {
    MissingParent,
    MissingDescriptor,
    /// The grid and its renderer were found; `tile_display_size` is the
    /// pixel size of one tile.
    Found { tile_display_size: MeshSize },
}

/// What the host found of a chunk's current material.
#[derive(Clone, Copy, Debug, PartialEq, Eq)]
pub enum BindingLookup {
    /// The chunk has no material yet.
    Unbound,
    /// The chunk has a material whose tile data image is gone.
    MissingTexture,
    /// The chunk has a material whose tile data image holds no buffer.
    MissingBuffer,
    /// The chunk has a material with a writable tile data buffer.
    Bound,
}

/// A chunk whose tiles changed since the last tick, as the host sees it.
#[derive(Debug)]
pub struct ChunkInput {
    /// The chunk's size in cells.
    pub cells: MeshSize,
    /// The chunk's cells in row-major order.
    pub tiles: Vec<Option<TileRenderData>>,
    pub grid: GridLookup,
    pub binding: BindingLookup,
}

/// What the host is to do for one chunk.
#[derive(Clone, Copy, Debug, PartialEq, Eq)]
pub enum SyncAction {
    /// Leave the chunk as it is and warn.
    Skip(SyncWarning),
    /// Replace the bound tile data buffer with the packed tiles, through the
    /// material so that the change is seen.
    Update,
    /// Create a tile data image of `image_size` texels from the packed
    /// tiles, a material over it, and attach it with the mesh `mesh`
    /// (of pixel size `mesh_size`; if `new_mesh`, the host creates its
    /// rectangle geometry first).
    Create { image_size: MeshSize, mesh_size: MeshSize, mesh: MeshHandle, new_mesh: bool },
}

/// The outcome for one chunk: the action, and the packed tile bytes it
/// writes (empty for a skipped chunk).
#[derive(Debug)]
pub struct ChunkSync {
    pub action: SyncAction,
    pub tile_data: Vec<u8>,
}

/// The chunk's pixel footprint: its cell counts times the tile display
/// size, component by component.
pub open spec fn footprint(cells: MeshSize, tile_display_size: MeshSize) -> (int, int) {
    (cells.0 * tile_display_size.0, cells.1 * tile_display_size.1)
}

/// The footprint that a chunk to be created would need fits in `u32`.
pub open spec fn footprint_fits(chunk: ChunkInput) -> bool {
    match chunk.grid {
        GridLookup::Found { tile_display_size } => chunk.binding == BindingLookup::Unbound ==> {
            let f = footprint(chunk.cells, tile_display_size);
            f.0 <= u32::MAX && f.1 <= u32::MAX
        },
        _ => true,
    }
}

/// The cache after one chunk, and the action for it.
pub open spec fn chunk_step(c: MeshCacheView, chunk: ChunkInput) -> (MeshCacheView, SyncAction) {
    match chunk.grid {
        GridLookup::MissingParent => (c, SyncAction::Skip(SyncWarning::MissingParent)),
        GridLookup::MissingDescriptor => (c, SyncAction::Skip(SyncWarning::MissingDescriptor)),
        GridLookup::Found { tile_display_size } => match chunk.binding {
            BindingLookup::Bound => (c, SyncAction::Update),
            BindingLookup::MissingTexture => (c, SyncAction::Skip(SyncWarning::MissingTextureResource)),
            BindingLookup::MissingBuffer => (c, SyncAction::Skip(SyncWarning::MissingBackingBuffer)),
            BindingLookup::Unbound => {
                let f = footprint(chunk.cells, tile_display_size);
                let size: MeshSize = (f.0 as u32, f.1 as u32);
                let (c1, h) = c.get_or_create(size);
                (
                    c1,
                    SyncAction::Create {
                        image_size: chunk.cells,
                        mesh_size: size,
                        mesh: h,
                        new_mesh: !c.entries.contains_key(size),
                    },
                )
            },
        },
    }
}

/// The bytes that the action for a chunk writes.
pub open spec fn chunk_data(chunk: ChunkInput, action: SyncAction) -> Seq<u8> {
    match action {
        SyncAction::Skip(_) => Seq::empty(),
        _ => packed(chunk.tiles@),
    }
}

/// The cache after a tick over `chunks`, in order, and the action for each.
pub open spec fn tick(c: MeshCacheView, chunks: Seq<ChunkInput>) -> (MeshCacheView, Seq<SyncAction>)
    decreases chunks.len(),
{
    if chunks.len() == 0 {
        (c, Seq::empty())
    } else {
        let (c1, actions) = tick(c, chunks.drop_last());
        let (c2, a) = chunk_step(c1, chunks.last());
        (c2, actions.push(a))
    }
}

/// Reconciles one changed chunk against the mesh cache.
pub fn sync_chunk(cache: &mut TilemapChunkMeshCache, chunk: &ChunkInput) -> (r: ChunkSync)
    requires
        old(cache)@.wf(),
        old(cache)@.next_id < u64::MAX,
        footprint_fits(*chunk),
    ensures
        (final(cache)@, r.action) == chunk_step(old(cache)@, *chunk),
        r.tile_data@ == chunk_data(*chunk, r.action),
        final(cache)@.wf(),
        final(cache)@.next_id <= old(cache)@.next_id + 1,
{
    match chunk.grid {
        GridLookup::MissingParent => {
            ChunkSync { action: SyncAction::Skip(SyncWarning::MissingParent), tile_data: Vec::new() }
        },
        GridLookup::MissingDescriptor => {
            ChunkSync { action: SyncAction::Skip(SyncWarning::MissingDescriptor), tile_data: Vec::new() }
        },
        GridLookup::Found { tile_display_size } => {
            let data = pack_tiles(&chunk.tiles);
            match chunk.binding {
                BindingLookup::Bound => ChunkSync { action: SyncAction::Update, tile_data: data },
                BindingLookup::MissingTexture => ChunkSync {
                    action: SyncAction::Skip(SyncWarning::MissingTextureResource),
                    tile_data: Vec::new(),
                },
                BindingLookup::MissingBuffer => ChunkSync {
                    action: SyncAction::Skip(SyncWarning::MissingBackingBuffer),
                    tile_data: Vec::new(),
                },
                BindingLookup::Unbound => {
                    let size: MeshSize = (
                        chunk.cells.0 * tile_display_size.0,
                        chunk.cells.1 * tile_display_size.1,
                    );
                    let (mesh, new_mesh) = cache.get_or_create(size);
                    ChunkSync {
                        action: SyncAction::Create { image_size: chunk.cells, mesh_size: size, mesh, new_mesh },
                        tile_data: data,
                    }
                },
            }
        },
    }
}

/// Reconciles every chunk that changed this tick, in order, sharing one
/// mesh cache; returns the outcome for each chunk.
pub fn sync_chunks(cache: &mut TilemapChunkMeshCache, chunks: &Vec<ChunkInput>) -> (r: Vec<ChunkSync>)
    requires
        old(cache)@.wf(),
        old(cache)@.next_id + chunks@.len() < u64::MAX,
        forall|i: int| 0 <= i < chunks@.len() ==> footprint_fits(#[trigger] chunks@[i]),
    ensures
        r@.len() == chunks@.len(),
        tick(old(cache)@, chunks@).0 == final(cache)@,
        forall|i: int|
            0 <= i < chunks@.len() ==> #[trigger] r@[i].action == tick(old(cache)@, chunks@).1[i],
        forall|i: int|
            0 <= i < chunks@.len() ==> #[trigger] r@[i].tile_data@ == chunk_data(chunks@[i], r@[i].action),
        final(cache)@.wf(),
{
    let ghost start = cache@;
    let mut r: Vec<ChunkSync> = Vec::new();
    let mut i: usize = 0;
    while i < chunks.len()
        invariant
            i <= chunks@.len(),
            r@.len() == i,
            cache@.wf(),
            cache@.next_id <= start.next_id + i,
            start.next_id + chunks@.len() < u64::MAX,
            forall|j: int| 0 <= j < chunks@.len() ==> footprint_fits(#[trigger] chunks@[j]),
            tick(start, chunks@.subrange(0, i as int)).0 == cache@,
            forall|j: int|
                0 <= j < i ==> #[trigger] r@[j].action == tick(start, chunks@.subrange(0, i as int)).1[j],
            forall|j: int| 0 <= j < i ==> #[trigger] r@[j].tile_data@ == chunk_data(chunks@[j], r@[j].action),
            tick(start, chunks@.subrange(0, i as int)).1.len() == i,
        decreases chunks@.len() - i,
    {
        let out = sync_chunk(cache, &chunks[i]);
        proof {
            let prefix = chunks@.subrange(0, i as int + 1);
            assert(prefix.drop_last() =~= chunks@.subrange(0, i as int));
            assert(prefix.last() == chunks@[i as int]);
        }
        r.push(out);
        i = i + 1;
    }
    assert(chunks@.subrange(0, chunks@.len() as int) =~= chunks@);
    r
}

/// One chunk's step never drops or changes a cached mesh, and a created
/// chunk's mesh is the one the cache holds for its size afterwards.
pub proof fn lemma_step_keeps_meshes(c: MeshCacheView, chunk: ChunkInput)
    ensures
        c.entries.submap_of(chunk_step(c, chunk).0.entries),
        chunk_step(c, chunk).1 is Create ==> {
            let (c1, a) = chunk_step(c, chunk);
            c1.entries.contains_key(a->mesh_size) && c1.entries[a->mesh_size] == a->mesh
        },
{
}

/// The action for the chunk at `i` in a tick is its step from the cache
/// that the chunks before it left.
pub proof fn lemma_tick_action(c: MeshCacheView, chunks: Seq<ChunkInput>, i: int)
    requires
        0 <= i < chunks.len(),
    ensures
        tick(c, chunks).1.len() == chunks.len(),
        tick(c, chunks).1[i] == chunk_step(tick(c, chunks.subrange(0, i)).0, chunks[i]).1,
    decreases chunks.len(),
{
    lemma_tick_meshes(c, chunks);
    let prefix = chunks.drop_last();
    assert(prefix =~= chunks.subrange(0, chunks.len() - 1));
    if i < chunks.len() - 1 {
        lemma_tick_action(c, prefix, i);
        assert(prefix.subrange(0, i) =~= chunks.subrange(0, i));
    } else {
        lemma_tick_meshes(c, prefix);
    }
}

/// Over a tick the cache only grows, and every created chunk's mesh is the
/// one the cache holds for its size at the end of the tick.
pub proof fn lemma_tick_meshes(c: MeshCacheView, chunks: Seq<ChunkInput>)
    ensures
        tick(c, chunks).1.len() == chunks.len(),
        c.entries.submap_of(tick(c, chunks).0.entries),
        forall|i: int|
            #![trigger tick(c, chunks).1[i]]
            0 <= i < chunks.len() && tick(c, chunks).1[i] is Create ==> {
                let (c1, actions) = tick(c, chunks);
                c1.entries.contains_key(actions[i]->mesh_size) && c1.entries[actions[i]->mesh_size]
                    == actions[i]->mesh
            },
    decreases chunks.len(),
{
    if chunks.len() > 0 {
        let prefix = chunks.drop_last();
        lemma_tick_meshes(c, prefix);
        let (c1, actions) = tick(c, prefix);
        lemma_step_keeps_meshes(c1, chunks.last());
        let (c2, all) = tick(c, chunks);
        assert forall|k: MeshSize| c.entries.dom().contains(k) implies #[trigger] c2.entries.dom().contains(k)
            && c.entries[k] == c2.entries[k] by {
            assert(c1.entries.dom().contains(k));
        }
        assert forall|i: int|
            0 <= i < chunks.len() && #[trigger] all[i] is Create implies c2.entries.contains_key(
            all[i]->mesh_size) && c2.entries[all[i]->mesh_size] == all[i]->mesh by {
            if i < chunks.len() - 1 {
                assert(all[i] == actions[i]);
                assert(c1.entries.contains_key(actions[i]->mesh_size));
            }
        }
    }
}

/// Synchronising an unbound chunk creates its binding, with a mesh that the
/// cache holds under the chunk's footprint. Synchronising it again once
/// bound, with any tiles, rewrites the bound buffer with the newly packed
/// tiles: no second binding, and the mesh cache is left as it was.
pub proof fn lemma_create_then_update(c: MeshCacheView, first: ChunkInput, second: ChunkInput)
    requires
        first.grid is Found,
        first.binding == BindingLookup::Unbound,
        second.grid == first.grid,
        second.cells == first.cells,
        second.binding == BindingLookup::Bound,
    ensures
        ({
            let (c1, a1) = chunk_step(c, first);
            let (c2, a2) = chunk_step(c1, second);
            &&& a1 is Create
            &&& a1->image_size == first.cells
            &&& c1.entries.contains_key(a1->mesh_size)
            &&& c1.entries[a1->mesh_size] == a1->mesh
            &&& chunk_data(first, a1) == packed(first.tiles@)
            &&& a2 == SyncAction::Update
            &&& c2 == c1
            &&& chunk_data(second, a2) == packed(second.tiles@)
        }),
{
}

/// Two distinct chunks of one tick that are both created and have equal
/// pixel footprints end up with the same mesh handle.
pub proof fn lemma_size_sharing(c: MeshCacheView, chunks: Seq<ChunkInput>, i: int, j: int)
    requires
        0 <= i < chunks.len(),
        0 <= j < chunks.len(),
        i != j,
        chunks[i].grid is Found,
        chunks[j].grid is Found,
        chunks[i].binding == BindingLookup::Unbound,
        chunks[j].binding == BindingLookup::Unbound,
        footprint_fits(chunks[i]),
        footprint_fits(chunks[j]),
        footprint(chunks[i].cells, chunks[i].grid->tile_display_size) == footprint(
            chunks[j].cells,
            chunks[j].grid->tile_display_size,
        ),
    ensures
        tick(c, chunks).1[i] is Create,
        tick(c, chunks).1[j] is Create,
        tick(c, chunks).1[i]->mesh == tick(c, chunks).1[j]->mesh,
{
    lemma_tick_action(c, chunks, i);
    lemma_tick_action(c, chunks, j);
    lemma_tick_meshes(c, chunks);
    let actions = tick(c, chunks).1;
    assert(actions[i]->mesh_size == actions[j]->mesh_size);
}

/// A chunk whose parent grid is missing is skipped with a warning, writes
/// nothing and leaves the cache alone; the chunk before it in the same tick
/// is synchronised exactly as it would be alone.
pub proof fn lemma_failure_isolation(c: MeshCacheView, a: ChunkInput, b: ChunkInput)
    requires
        b.grid == GridLookup::MissingParent,
    ensures
        tick(c, seq![a, b]).1 == seq![chunk_step(c, a).1, SyncAction::Skip(SyncWarning::MissingParent)],
        tick(c, seq![a, b]).0 == chunk_step(c, a).0,
        chunk_data(b, SyncAction::Skip(SyncWarning::MissingParent)) == Seq::<u8>::empty(),
{
    let s = seq![a, b];
    let e = Seq::<ChunkInput>::empty();
    assert(tick(c, e) == (c, Seq::<SyncAction>::empty()));
    assert(seq![a].drop_last() =~= e);
    assert(seq![a].last() == a);
    assert(tick(c, seq![a]).0 == chunk_step(c, a).0);
    assert(tick(c, seq![a]).1 =~= seq![chunk_step(c, a).1]);
    assert(s.drop_last() =~= seq![a]);
    assert(s.last() == b);
    assert(tick(c, s).1 =~= seq![chunk_step(c, a).1, SyncAction::Skip(SyncWarning::MissingParent)]);
}

} // verus!
