use tilemap_chunk::mesh_cache::{MeshHandle, TilemapChunkMeshCache};
use tilemap_chunk::sync::{
    sync_chunk, sync_chunks, BindingLookup, ChunkInput, GridLookup, SyncAction, SyncWarning,
};
use tilemap_chunk::tile::{pack_tile, pack_tiles, TileRenderData, TILE_RECORD_SIZE};

fn grid(w: u32, h: u32) -> GridLookup {
    GridLookup::Found { tile_display_size: (w, h) }
}

fn chunk(cells: (u32, u32), tiles: Vec<Option<TileRenderData>>, grid: GridLookup, binding: BindingLookup) -> ChunkInput {
    ChunkInput { cells, tiles, grid, binding }
}

fn default_tiles(n: usize) -> Vec<Option<TileRenderData>> {
    (0..n).map(|_| Some(TileRenderData::default())).collect()
}

#[test]
fn default_tile_is_white_visible_index_zero() {
    let t = TileRenderData::default();
    assert_eq!(t.tileset_index, 0);
    assert_eq!(t.color, [255, 255, 255, 255]);
    assert!(t.visible);
}

#[test]
fn from_tileset_index_keeps_defaults() {
    let t = TileRenderData::from_tileset_index(42);
    assert_eq!(t.tileset_index, 42);
    assert_eq!(t.color, [255, 255, 255, 255]);
    assert!(t.visible);
}

#[test]
fn pack_tile_layout() {
    let t = TileRenderData { tileset_index: 0x1234, color: [1, 2, 3, 4], visible: true };
    assert_eq!(pack_tile(Some(t)), [0x34, 0x12, 1, 2, 3, 4, 1, 0]);
    let hidden = TileRenderData { visible: false, ..t };
    assert_eq!(pack_tile(Some(hidden)), [0x34, 0x12, 1, 2, 3, 4, 0, 0]);
    assert_eq!(pack_tile(None), [255, 255, 0, 0, 0, 0, 0, 0]);
}

#[test]
fn pack_tiles_concatenates_records() {
    let a = TileRenderData { tileset_index: 7, color: [10, 20, 30, 40], visible: true };
    let b = TileRenderData { tileset_index: 300, color: [50, 60, 70, 80], visible: false };
    let bytes = pack_tiles(&vec![Some(a), None, Some(b)]);
    assert_eq!(
        bytes,
        vec![
            7, 0, 10, 20, 30, 40, 1, 0, //
            255, 255, 0, 0, 0, 0, 0, 0, //
            44, 1, 50, 60, 70, 80, 0, 0,
        ]
    );
}

#[test]
fn pack_tiles_empty() {
    assert!(pack_tiles(&Vec::new()).is_empty());
}

#[test]
fn packing_is_deterministic() {
    let tiles: Vec<Option<TileRenderData>> =
        (0..5u16).map(|i| Some(TileRenderData::from_tileset_index(i * 3))).collect();
    let first = pack_tiles(&tiles);
    let second = pack_tiles(&tiles);
    assert_eq!(first, second);
    assert_eq!(first.len(), 5 * TILE_RECORD_SIZE);
}

#[test]
fn packing_preserves_order() {
    let tiles: Vec<Option<TileRenderData>> =
        (0..4u16).map(|i| Some(TileRenderData::from_tileset_index(i + 1))).collect();
    let bytes = pack_tiles(&tiles);
    for (i, t) in tiles.iter().enumerate() {
        let slot = &bytes[i * TILE_RECORD_SIZE..(i + 1) * TILE_RECORD_SIZE];
        assert_eq!(slot, &pack_tile(*t)[..]);
        assert_eq!(slot[0] as usize, i + 1);
    }
}

#[test]
fn mesh_cache_is_idempotent() {
    let mut cache = TilemapChunkMeshCache::new();
    let (h1, fresh1) = cache.get_or_create((64, 64));
    let (h2, fresh2) = cache.get_or_create((64, 64));
    assert!(fresh1);
    assert!(!fresh2);
    assert_eq!(h1, h2);
    assert_eq!(cache.get((64, 64)), Some(h1));
}

#[test]
fn mesh_cache_distinct_sizes_get_distinct_handles() {
    let mut cache = TilemapChunkMeshCache::default();
    assert_eq!(cache.get((32, 16)), None);
    let (h1, _) = cache.get_or_create((32, 16));
    let (h2, _) = cache.get_or_create((16, 32));
    assert_ne!(h1, h2);
    assert_eq!(cache.get((32, 16)), Some(h1));
    assert_eq!(cache.get((16, 32)), Some(h2));
    assert_eq!(h1, MeshHandle { id: 0 });
    assert_eq!(h2, MeshHandle { id: 1 });
}

#[test]
fn scenario_sixteen_pixel_tiles_four_by_four_chunk() {
    let mut cache = TilemapChunkMeshCache::new();
    let chunks = vec![
        chunk((4, 4), default_tiles(16), grid(16, 16), BindingLookup::Unbound),
        chunk((4, 4), default_tiles(16), grid(16, 16), BindingLookup::Unbound),
    ];
    let out = sync_chunks(&mut cache, &chunks);
    assert_eq!(out.len(), 2);
    assert_eq!(out[0].tile_data.len(), 16 * TILE_RECORD_SIZE);
    let first_mesh = match out[0].action {
        SyncAction::Create { image_size, mesh_size, mesh, new_mesh } => {
            assert_eq!(image_size, (4, 4));
            assert_eq!(mesh_size, (64, 64));
            assert!(new_mesh);
            mesh
        }
        other => panic!("expected a create, got {:?}", other),
    };
    match out[1].action {
        SyncAction::Create { mesh_size, mesh, new_mesh, .. } => {
            assert_eq!(mesh_size, (64, 64));
            assert_eq!(mesh, first_mesh);
            assert!(!new_mesh);
        }
        other => panic!("expected a create, got {:?}", other),
    }
    assert_eq!(cache.get((64, 64)), Some(first_mesh));
    assert_eq!(cache.get((4, 4)), None);
}

#[test]
fn create_then_update_converges() {
    let mut cache = TilemapChunkMeshCache::new();
    let first = chunk((2, 1), default_tiles(2), grid(8, 8), BindingLookup::Unbound);
    let created = sync_chunk(&mut cache, &first);
    let mesh = match created.action {
        SyncAction::Create { mesh_size, mesh, new_mesh, .. } => {
            assert_eq!(mesh_size, (16, 8));
            assert!(new_mesh);
            mesh
        }
        other => panic!("expected a create, got {:?}", other),
    };
    assert_eq!(created.tile_data, pack_tiles(&first.tiles));

    let new_tiles = vec![Some(TileRenderData::from_tileset_index(5)), None];
    let second = chunk((2, 1), new_tiles, grid(8, 8), BindingLookup::Bound);
    let updated = sync_chunk(&mut cache, &second);
    assert_eq!(updated.action, SyncAction::Update);
    assert_eq!(updated.tile_data, vec![5, 0, 255, 255, 255, 255, 1, 0, 255, 255, 0, 0, 0, 0, 0, 0]);
    assert_eq!(cache.get((16, 8)), Some(mesh));
    let (again, fresh) = cache.get_or_create((9, 9));
    assert!(fresh);
    assert_eq!(again, MeshHandle { id: 1 });
}

#[test]
fn failure_isolation_missing_parent() {
    let mut cache = TilemapChunkMeshCache::new();
    let chunks = vec![
        chunk((1, 1), default_tiles(1), grid(16, 16), BindingLookup::Unbound),
        chunk((1, 1), default_tiles(1), GridLookup::MissingParent, BindingLookup::Unbound),
    ];
    let out = sync_chunks(&mut cache, &chunks);
    assert!(matches!(out[0].action, SyncAction::Create { mesh_size: (16, 16), new_mesh: true, .. }));
    assert_eq!(out[0].tile_data.len(), TILE_RECORD_SIZE);
    assert_eq!(out[1].action, SyncAction::Skip(SyncWarning::MissingParent));
    assert!(out[1].tile_data.is_empty());
}

#[test]
fn each_warning_skips_the_chunk() {
    let mut cache = TilemapChunkMeshCache::new();
    let cases = [
        (GridLookup::MissingParent, BindingLookup::Bound, SyncWarning::MissingParent),
        (GridLookup::MissingDescriptor, BindingLookup::Unbound, SyncWarning::MissingDescriptor),
        (grid(4, 4), BindingLookup::MissingTexture, SyncWarning::MissingTextureResource),
        (grid(4, 4), BindingLookup::MissingBuffer, SyncWarning::MissingBackingBuffer),
    ];
    for (g, b, w) in cases {
        let out = sync_chunk(&mut cache, &chunk((3, 3), default_tiles(9), g, b));
        assert_eq!(out.action, SyncAction::Skip(w));
        assert!(out.tile_data.is_empty());
    }
    assert_eq!(cache.get((12, 12)), None);
    let (h, fresh) = cache.get_or_create((12, 12));
    assert!(fresh);
    assert_eq!(h, MeshHandle { id: 0 });
}

#[test]
fn different_footprints_get_different_meshes() {
    let mut cache = TilemapChunkMeshCache::new();
    let chunks = vec![
        chunk((4, 4), default_tiles(16), grid(16, 16), BindingLookup::Unbound),
        chunk((2, 8), default_tiles(16), grid(16, 16), BindingLookup::Unbound),
        chunk((8, 8), default_tiles(64), grid(8, 8), BindingLookup::Unbound),
    ];
    let out = sync_chunks(&mut cache, &chunks);
    let meshes: Vec<MeshHandle> = out
        .iter()
        .map(|o| match o.action {
            SyncAction::Create { mesh, .. } => mesh,
            other => panic!("expected a create, got {:?}", other),
        })
        .collect();
    assert_ne!(meshes[0], meshes[1]);
    assert_eq!(meshes[0], meshes[2]);
}
