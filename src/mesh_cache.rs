//! A cache of chunk meshes keyed by pixel size, so that chunks with the same
//! footprint share one mesh.

use vstd::prelude::*;

verus! {

/// bevy_platform's hash map, held opaque; what it stores is `size_table`.
#[verifier::external_type_specification]
#[verifier::external_body]
#[verifier::reject_recursive_types(K)]
#[verifier::reject_recursive_types(V)]
#[verifier::reject_recursive_types(S)]
pub struct ExPlatformHashMap<K, V, S>(bevy_platform::collections::HashMap<K, V, S>);

/// bevy_platform's default hasher, the map's hasher parameter.
#[verifier::external_type_specification]
#[verifier::external_body]
pub struct ExFixedHasher(bevy_platform::hash::FixedHasher);

/// A reference to a chunk mesh held by the host's mesh storage. The cache
/// hands out a fresh id for each size it has not seen; the host creates
/// the rectangle geometry of that size under that id.
#[derive(Clone, Copy, Debug, PartialEq, Eq, Structural)]
pub struct MeshHandle {
    pub id: u64,
}

/// A pixel extent `(width, height)`.
pub type MeshSize = (u32, u32);

/// The host map from size to mesh handle.
pub type MeshTable = bevy_platform::collections::HashMap<MeshSize, MeshHandle>;

/// The table held by a mesh-size map.
pub uninterp spec fn size_table(m: MeshTable) -> Map<MeshSize, MeshHandle>;

/// Relies on bevy_platform's `HashMap::new`: an empty map.
#[verifier::external_body]
fn table_new() -> (r: MeshTable)
    ensures
        size_table(r).dom() == Set::<MeshSize>::empty(),
{
    bevy_platform::collections::HashMap::new()
}

/// Relies on bevy_platform's `HashMap::get`: the value stored under the
/// key, if any.
#[verifier::external_body]
fn table_get(m: &MeshTable, k: MeshSize) -> (r: Option<MeshHandle>)
    ensures
        r == (if size_table(*m).contains_key(k) {
            Some(size_table(*m)[k])
        } else {
            None
        }),
{
    m.get(&k).copied()
}

/// Relies on bevy_platform's `HashMap::insert`: the key maps to the value
/// afterwards, other keys are untouched.
#[verifier::external_body]
fn table_insert(m: &mut MeshTable, k: MeshSize, v: MeshHandle)
    ensures
        size_table(*final(m)) == size_table(*old(m)).insert(k, v),
{
    m.insert(k, v);
}

/// What a mesh cache holds: the handle stored for each size, and the next
/// id it will hand out.
pub struct MeshCacheView {
    pub entries: Map<MeshSize, MeshHandle>,
    pub next_id: nat,
}

impl MeshCacheView {
    /// Every stored handle was handed out before, and no two sizes share a
    /// handle.
    pub open spec fn wf(self) -> bool {
        &&& forall|s: MeshSize| #[trigger] self.entries.contains_key(s) ==> self.entries[s].id < self.next_id
        &&& forall|s: MeshSize, t: MeshSize|
            #![trigger self.entries[s], self.entries[t]]
            self.entries.contains_key(s) && self.entries.contains_key(t) && s != t ==> self.entries[s]
                != self.entries[t]
    }

    /// The cache after asking for `size`, and the handle returned: the
    /// stored one if the size was seen before, else a fresh one, stored.
    pub open spec fn get_or_create(self, size: MeshSize) -> (MeshCacheView, MeshHandle) {
        if self.entries.contains_key(size) {
            (self, self.entries[size])
        } else {
            let h = MeshHandle { id: self.next_id as u64 };
            (MeshCacheView { entries: self.entries.insert(size, h), next_id: self.next_id + 1 }, h)
        }
    }
}

/// A cache storing the mesh of each tilemap chunk size.
pub struct TilemapChunkMeshCache {
    meshes: MeshTable,
    next_id: u64,
}

impl View for TilemapChunkMeshCache {
    type V = MeshCacheView;

    closed spec fn view(&self) -> MeshCacheView {
        MeshCacheView { entries: size_table(self.meshes), next_id: self.next_id as nat }
    }
}

impl TilemapChunkMeshCache {
    /// An empty cache.
    pub fn new() -> (r: Self)
        ensures
            r@.entries == Map::<MeshSize, MeshHandle>::empty(),
            r@.next_id == 0,
            r@.wf(),
    {
        TilemapChunkMeshCache { meshes: table_new(), next_id: 0 }
    }

    /// The handle stored for `size`, if any.
    pub fn get(&self, size: MeshSize) -> (r: Option<MeshHandle>)
        ensures
            r == (if self@.entries.contains_key(size) {
                Some(self@.entries[size])
            } else {
                None
            }),
    {
        table_get(&self.meshes, size)
    }

    /// How many handles the cache has handed out: the next fresh handle's id.
    pub fn handed_out(&self) -> (r: u64)
        ensures
            r == self@.next_id,
    {
        self.next_id
    }

    /// Returns the handle stored for `size`; for a size not seen before,
    /// stores and returns a fresh handle. The boolean says whether the
    /// handle is fresh, in which case the host creates its geometry.
    pub fn get_or_create(&mut self, size: MeshSize) -> (r: (MeshHandle, bool))
        requires
            old(self)@.wf(),
            old(self)@.next_id < u64::MAX,
        ensures
            (final(self)@, r.0) == old(self)@.get_or_create(size),
            r.1 == !old(self)@.entries.contains_key(size),
            final(self)@.wf(),
    {
        proof {
            lemma_get_or_create_wf(self@, size);
        }
        match table_get(&self.meshes, size) {
            Some(h) => (h, false),
            None => {
                let h = MeshHandle { id: self.next_id };
                table_insert(&mut self.meshes, size, h);
                self.next_id = self.next_id + 1;
                (h, true)
            },
        }
    }
}

impl Default for TilemapChunkMeshCache {
    fn default() -> (r: Self)
        ensures
            r@.entries == Map::<MeshSize, MeshHandle>::empty(),
            r@.next_id == 0,
    {
        TilemapChunkMeshCache::new()
    }
}

/// Asking for a size keeps the cache well formed, and never takes back or
/// changes a stored handle.
pub proof fn lemma_get_or_create_wf(c: MeshCacheView, size: MeshSize)
    requires
        c.wf(),
        c.next_id < u64::MAX,
    ensures
        c.get_or_create(size).0.wf(),
        c.get_or_create(size).0.entries.contains_key(size),
        c.get_or_create(size).0.entries[size] == c.get_or_create(size).1,
        c.entries.submap_of(c.get_or_create(size).0.entries),
        c.next_id <= c.get_or_create(size).0.next_id <= c.next_id + 1,
{
    let (c1, h) = c.get_or_create(size);
    if !c.entries.contains_key(size) {
        assert forall|s: MeshSize, t: MeshSize|
            c1.entries.contains_key(s) && c1.entries.contains_key(t) && s != t implies c1.entries[s]
            != c1.entries[t] by {
            assert(c1.entries[size].id == c.next_id);
            if s != size && t != size {
                assert(c.entries[s] != c.entries[t]);
            } else if s == size {
                assert(c.entries[t].id < c.next_id);
            } else {
                assert(c.entries[s].id < c.next_id);
            }
        }
    }
}

/// Asking twice for one size returns the same handle both times, and the
/// second ask leaves the cache as the first left it.
pub proof fn lemma_get_or_create_idempotent(c: MeshCacheView, size: MeshSize)
    ensures
        c.get_or_create(size).0.get_or_create(size).1 == c.get_or_create(size).1,
        c.get_or_create(size).0.get_or_create(size).0 == c.get_or_create(size).0,
{
}

/// Asking for two different sizes returns two different handles.
pub proof fn lemma_get_or_create_distinct(c: MeshCacheView, s: MeshSize, t: MeshSize)
    requires
        c.wf(),
        c.next_id + 1 < u64::MAX,
        s != t,
    ensures
        c.get_or_create(s).1 != c.get_or_create(s).0.get_or_create(t).1,
{
    let (c1, h1) = c.get_or_create(s);
    lemma_get_or_create_wf(c, s);
    lemma_get_or_create_wf(c1, t);
    let (c2, h2) = c1.get_or_create(t);
    assert(c2.entries[s] == h1);
    assert(c2.entries[t] == h2);
}

} // verus!
