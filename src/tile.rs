//! Per-tile render attributes and their packed byte encoding.

use vstd::arithmetic::div_mod::lemma_fundamental_div_mod_converse;
use vstd::prelude::*;

verus! {

/// Size in bytes of one packed tile record.
pub const TILE_RECORD_SIZE: usize = 8;

/// Data for a single tile in a tilemap chunk.
#[derive(Clone, Copy, Debug)]
pub struct TileRenderData {
    /// The index of the tile in the corresponding tileset array texture.
    pub tileset_index: u16,
    /// The colour tint of the tile as sRGBA bytes. White leaves the sampled
    /// texture colour unchanged.
    pub color: [u8; 4],
    /// The visibility of the tile.
    pub visible: bool,
}

/// Opaque white, as sRGBA bytes.
pub open spec fn white() -> Seq<u8> {
    seq![255u8, 255u8, 255u8, 255u8]
}

impl TileRenderData {
    /// Creates tile data with the given tileset index, a white tint and
    /// visible.
    pub fn from_tileset_index(tileset_index: u16) -> (r: Self)
        ensures
            r.tileset_index == tileset_index,
            r.color@ == white(),
            r.visible,
    {
        let r = TileRenderData { tileset_index, color: [255u8, 255u8, 255u8, 255u8], visible: true };
        assert(r.color@ =~= white());
        r
    }
}

impl Default for TileRenderData {
    fn default() -> (r: Self)
        ensures
            r.tileset_index == 0,
            r.color@ == white(),
            r.visible,
    {
        TileRenderData::from_tileset_index(0)
    }
}

/// The eight bytes that one cell packs to: the tileset index (little
/// endian), the four colour bytes, then a little-endian flag word whose
/// lowest bit is the visibility. An empty cell packs as index `u16::MAX`,
/// a transparent black tint and no flags.
pub open spec fn record_bytes(t: Option<TileRenderData>) -> Seq<u8> {
    match t {
        Some(d) => seq![
            (d.tileset_index % 256) as u8,
            (d.tileset_index / 256) as u8,
            d.color@[0],
            d.color@[1],
            d.color@[2],
            d.color@[3],
            if d.visible { 1u8 } else { 0u8 },
            0u8,
        ],
        None => seq![255u8, 255u8, 0u8, 0u8, 0u8, 0u8, 0u8, 0u8],
    }
}

/// The packed buffer of a sequence of cells: record `i` occupies bytes
/// `8 * i` up to `8 * i + 8`.
pub open spec fn packed(tiles: Seq<Option<TileRenderData>>) -> Seq<u8> {
    Seq::new(
        (8 * tiles.len()) as nat,
        |b: int| record_bytes(tiles[b / 8])[b % 8],
    )
}

/// Packs one cell into its eight-byte record.
pub fn pack_tile(t: Option<TileRenderData>) -> (r: [u8; 8])
    ensures
        r@ == record_bytes(t),
{
    let r: [u8; 8] = match t {
        Some(d) => [
            (d.tileset_index % 256) as u8,
            (d.tileset_index / 256) as u8,
            d.color[0],
            d.color[1],
            d.color[2],
            d.color[3],
            if d.visible { 1u8 } else { 0u8 },
            0u8,
        ],
        None => [255u8, 255u8, 0u8, 0u8, 0u8, 0u8, 0u8, 0u8],
    };
    assert(r@ =~= record_bytes(t));
    r
}

/// Relies on bytemuck::cast_slice from `[u8; 8]` to `u8`: the same bytes,
/// record after record, with no padding (an array of bytes has alignment
/// one and no padding, so the cast never fails).
#[verifier::external_body]
fn flatten_records(records: &Vec<[u8; 8]>) -> (r: Vec<u8>)
    ensures
        r@.len() == 8 * records@.len(),
        forall|b: int| 0 <= b < r@.len() ==> #[trigger] r@[b] == records@[b / 8]@[b % 8],
{
    bytemuck::cast_slice::<[u8; 8], u8>(records.as_slice()).to_vec()
}

/// Packs a chunk's cells, in order, into one dense byte buffer.
pub fn pack_tiles(tiles: &Vec<Option<TileRenderData>>) -> (r: Vec<u8>)
    ensures
        r@ == packed(tiles@),
{
    let mut records: Vec<[u8; 8]> = Vec::new();
    let mut i: usize = 0;
    while i < tiles.len()
        invariant
            i <= tiles@.len(),
            records@.len() == i,
            forall|j: int| 0 <= j < i ==> #[trigger] records@[j]@ == record_bytes(tiles@[j]),
        decreases tiles@.len() - i,
    {
        records.push(pack_tile(tiles[i]));
        i = i + 1;
    }
    let r = flatten_records(&records);
    assert(r@ =~= packed(tiles@));
    r
}

/// The record of cell `i` stands in the packed buffer at bytes `8 * i` up to
/// `8 * i + 8`.
pub proof fn lemma_record_slot(tiles: Seq<Option<TileRenderData>>, i: int)
    requires
        0 <= i < tiles.len(),
    ensures
        8 * i + 8 <= packed(tiles).len(),
        packed(tiles).subrange(8 * i, 8 * i + 8) == record_bytes(tiles[i]),
{
    let p = packed(tiles);
    assert forall|k: int| 0 <= k < 8 implies #[trigger] p[8 * i + k] == record_bytes(tiles[i])[k] by {
        lemma_fundamental_div_mod_converse(8 * i + k, 8, i, k);
    }
    assert(p.subrange(8 * i, 8 * i + 8) =~= record_bytes(tiles[i]));
}

/// Packing is deterministic: equal cell sequences pack to byte-identical
/// buffers, of exactly one record size per cell.
pub proof fn lemma_packing_deterministic(a: Seq<Option<TileRenderData>>, b: Seq<Option<TileRenderData>>)
    requires
        a == b,
    ensures
        packed(a) == packed(b),
        packed(a).len() == TILE_RECORD_SIZE * a.len(),
{
}

/// Packing keeps the order of the cells: for cells `i < j`, the record of
/// `i` lies wholly before the record of `j` in the packed buffer.
pub proof fn lemma_packing_preserves_order(tiles: Seq<Option<TileRenderData>>, i: int, j: int)
    requires
        0 <= i < j < tiles.len(),
    ensures
        8 * i + 8 <= 8 * j,
        packed(tiles).subrange(8 * i, 8 * i + 8) == record_bytes(tiles[i]),
        packed(tiles).subrange(8 * j, 8 * j + 8) == record_bytes(tiles[j]),
{
    lemma_record_slot(tiles, i);
    lemma_record_slot(tiles, j);
}

} // verus!
