//! What holds of the library as a whole.

use vstd::prelude::*;
use valence_nbt::Compound;
use crate::chunk::ChunkView;
use crate::chunk::SectionView;
use crate::chunk::SECTION_BIOME_COUNT;
use crate::chunk::SECTION_BLOCK_COUNT;
use crate::chunk::spec_biome_index;
use crate::chunk::spec_block_entity_key;
use crate::chunk::spec_block_index;
use crate::index::spec_chunk_height;
use crate::index::spec_insert;
use crate::index::spec_stored;
use crate::loaded::ChunkLayerInfo;
use crate::loaded::LoadedChunkView;
use crate::loaded::spec_dec_viewers_by;
use crate::loaded::spec_inc_viewers_by;
use crate::paletted::distinct_values;
use crate::paletted::lemma_distinct_values;
use crate::paletted::lemma_set_same_value;
use crate::paletted::Palette;
use crate::pos::ChunkPos;

verus! {

/// A chunk resized to `height` has the whole sections that fit into
/// `height`, is well formed if it was, and keeps what it held below that
/// height.
pub proof fn lemma_set_height_gives_height(chunk: ChunkView, height: u32)
    requires
        chunk.wf(),
    ensures
        chunk.set_height(height).wf(),
        chunk.set_height(height).sections.len() == height / 16,
        chunk.set_height(height).height() == height / 16 * 16,
        forall|i: int|
            0 <= i < chunk.sections.len() && i < height / 16 ==> chunk.set_height(height).sections[i]
                == chunk.sections[i],
{
}

/// An empty chunk resized to `height` is a chunk of air of that height.
pub proof fn lemma_new_chunk_resized(height: u32)
    ensures
        ChunkView::with_height(0).set_height(height) == ChunkView::with_height(height),
        ChunkView::with_height(height).set_height(height) == ChunkView::with_height(height),
{
    assert(ChunkView::with_height(0).set_height(height).sections =~= ChunkView::with_height(
        height,
    ).sections);
    assert(ChunkView::with_height(height).set_height(height).sections =~= ChunkView::with_height(
        height,
    ).sections);
}

/// A container in its smallest form is well formed and holds in every cell
/// what it held before.
pub proof fn law_shrink_to_fit_keeps_cells(p: Palette, len: nat)
    requires
        p.wf(len),
        len > 0,
    ensures
        p.shrink_to_fit(len).wf(len),
        p.shrink_to_fit(len).cells(len) == p.cells(len),
{
    let cells = p.cells(len);
    let values = distinct_values(cells);
    lemma_distinct_values(cells);
    if !(p is Single) && values.len() <= crate::paletted::MAX_PALETTE_LEN {
        assert forall|i: int| 0 <= i < len implies 0 <= values.index_of(cells[i]) < values.len()
            && values[values.index_of(cells[i])] == #[trigger] cells[i] by {
            assert(values.contains(cells[i]));
        }
        assert(p.shrink_to_fit(len).cells(len) =~= cells);
    }
}

/// Setting a block to the state that it has changes nothing: the data, the
/// form in which it is kept, and the packet stay as they are.
pub proof fn law_same_block_state_keeps_packet(loaded: LoadedChunkView, x: u32, y: u32, z: u32)
    requires
        loaded.chunk.wf(),
        loaded.chunk.has_block(x, y, z),
    ensures
        loaded.set_block_state(x, y, z, loaded.chunk.block_raw(x, y, z)) == loaded,
{
    let sect = loaded.chunk.sections[y as int / 16];
    assert(sect.wf());
    lemma_set_same_value(sect.blocks, SECTION_BLOCK_COUNT as nat, spec_block_index(x, y, z));
    let after = loaded.chunk.set_block(x, y, z, loaded.chunk.block_raw(x, y, z));
    assert(after.sections =~= loaded.chunk.sections);
}

/// Setting a biome cell to the biome that it has changes nothing: the data,
/// the form in which it is kept, and the packet stay as they are.
pub proof fn law_same_biome_keeps_packet(loaded: LoadedChunkView, x: u32, y: u32, z: u32)
    requires
        loaded.chunk.wf(),
        loaded.chunk.has_biome(x, y, z),
    ensures
        loaded.set_biome(x, y, z, loaded.chunk.biome_raw(x, y, z)) == loaded,
{
    let sect = loaded.chunk.sections[y as int / 4];
    assert(sect.wf());
    lemma_set_same_value(sect.biomes, SECTION_BIOME_COUNT as nat, spec_biome_index(x, y, z));
    let after = loaded.chunk.set_biome(x, y, z, loaded.chunk.biome_raw(x, y, z));
    assert(after.sections =~= loaded.chunk.sections);
}

/// Each change that a client could see drops the packet: a block set to
/// another state, a biome cell set to another biome, a section filled with
/// one block state or one biome, a block entity set, changed or taken away.
pub proof fn law_changes_drop_packet(
    loaded: LoadedChunkView,
    x: u32,
    y: u32,
    z: u32,
    raw: u32,
    sect_y: int,
    key: u32,
    payload: Option<Compound>,
)
    ensures
        raw != loaded.chunk.block_raw(x, y, z) ==> !loaded.set_block_state(x, y, z, raw).cache_valid(),
        raw != loaded.chunk.biome_raw(x, y, z) ==> !loaded.set_biome(x, y, z, raw).cache_valid(),
        !loaded.fill_block_state_section(sect_y, raw).cache_valid(),
        !loaded.fill_biome_section(sect_y, raw).cache_valid(),
        loaded.chunk.sections.len() > 0 ==> !loaded.fill_block_states(raw).cache_valid(),
        loaded.chunk.sections.len() > 0 ==> !loaded.fill_biomes(raw).cache_valid(),
        !loaded.set_block_entity(key, payload).cache_valid(),
        !loaded.chunk.block_entities.dom().is_empty() ==> !loaded.clear_block_entities().cache_valid(),
        !loaded.replace(loaded.chunk).cache_valid(),
{
}

/// Asking for the packet of a chunk that keeps none builds it from the data
/// that the chunk has then, and leaves the data alone. The packet is kept
/// if the protocol crate could encode it. Asking again gives the same bytes
/// without building anything.
pub proof fn law_packet_rebuilt_from_data(loaded: LoadedChunkView, pos: ChunkPos, info: ChunkLayerInfo)
    requires
        !loaded.cache_valid(),
    ensures
        loaded.write_init_packets(pos, info).cache == loaded.init_packet(pos, info),
        loaded.write_init_packets(pos, info).chunk == loaded.chunk,
        loaded.write_init_packets(pos, info).viewer_count == loaded.viewer_count,
        loaded.write_init_packets(pos, info).cache_valid() <==> loaded.init_packet(pos, info).len()
            > 0,
        loaded.write_init_packets(pos, info).write_init_packets(pos, info)
            == loaded.write_init_packets(pos, info),
{
}

/// After a block is set to another state, the packet that is built next is
/// that of the chunk with the new state in place.
pub proof fn law_packet_reflects_block_change(
    loaded: LoadedChunkView,
    x: u32,
    y: u32,
    z: u32,
    raw: u32,
    pos: ChunkPos,
    info: ChunkLayerInfo,
)
    requires
        raw != loaded.chunk.block_raw(x, y, z),
    ensures
        loaded.set_block_state(x, y, z, raw).write_init_packets(pos, info).cache
            == crate::packet::spec_chunk_packet(
            pos.x,
            pos.z,
            crate::packet::spec_empty_compound_bytes(),
            loaded.chunk.set_block(x, y, z, raw).blocks_and_biomes(info.biome_registry_len as nat),
            loaded.chunk.set_block(x, y, z, raw).block_entity_records(info.min_y as int),
            crate::packet::LightView::empty(),
            info.threshold.spec_limit(),
        ),
{
}

/// While a packet is kept, asking for it changes nothing, whatever position
/// and parameters are given.
pub proof fn law_kept_packet_is_reused(loaded: LoadedChunkView, pos: ChunkPos, info: ChunkLayerInfo)
    requires
        loaded.cache_valid(),
    ensures
        loaded.write_init_packets(pos, info) == loaded,
{
}

/// A chunk stored in an index made for the height `height` has the whole
/// sections that fit into `height`, whatever height its data had before; if
/// `height` is a multiple of sixteen, its height is `height`.
pub proof fn law_stored_chunk_has_index_height(height: u32, chunk: ChunkView)
    requires
        chunk.wf(),
    ensures
        spec_stored(height, chunk).chunk.wf(),
        spec_stored(height, chunk).chunk.height() == spec_chunk_height(height),
        height % 16 == 0 ==> spec_stored(height, chunk).chunk.height() == height,
{
    lemma_set_height_gives_height(chunk, spec_chunk_height(height) as u32);
}

/// After `chunk` is inserted at `pos`, the index has at `pos` a chunk with
/// the data of `chunk` resized to the height of the index, which nobody sees
/// and which keeps no packet, whatever was stored at `pos` before; and it has
/// at every other position what it had.
pub proof fn law_insert_then_get(
    chunks: Map<ChunkPos, LoadedChunkView>,
    height: u32,
    pos: ChunkPos,
    other: ChunkPos,
    chunk: ChunkView,
)
    ensures
        spec_insert(chunks, height, pos, chunk).contains_key(pos),
        spec_insert(chunks, height, pos, chunk)[pos].chunk == chunk.set_height(
            spec_chunk_height(height) as u32,
        ),
        spec_insert(chunks, height, pos, chunk)[pos].viewer_count == 0,
        !spec_insert(chunks, height, pos, chunk)[pos].cache_valid(),
        other != pos ==> spec_insert(chunks, height, pos, chunk).get(other) == chunks.get(other),
{
}

/// After the block entity at `(x, y, z)` is set to a payload, or taken away,
/// no packet is kept, and the chunk has at `(x, y, z)` the payload that was
/// set, or none; the block entities at other places stay.
pub proof fn law_set_block_entity_then_get(
    loaded: LoadedChunkView,
    x: u32,
    y: u32,
    z: u32,
    payload: Option<Compound>,
    other: u32,
)
    ensures
        !loaded.set_block_entity(spec_block_entity_key(x, y, z) as u32, payload).cache_valid(),
        loaded.set_block_entity(
            spec_block_entity_key(x, y, z) as u32,
            payload,
        ).chunk.block_entities.get(spec_block_entity_key(x, y, z) as u32) == payload,
        other != spec_block_entity_key(x, y, z) as u32 ==> loaded.set_block_entity(
            spec_block_entity_key(x, y, z) as u32,
            payload,
        ).chunk.block_entities.get(other) == loaded.chunk.block_entities.get(other),
        loaded.set_block_entity(spec_block_entity_key(x, y, z) as u32, payload).chunk.sections
            == loaded.chunk.sections,
{
}

/// The list of block entities has a record for each payload whose block
/// state carries a block entity, and is no longer than the number of keys
/// that it covers: the list up to `bound` has the record of key `key` if
/// `key` is below `bound`, has a payload, and its block state carries a kind.
pub proof fn law_records_are_the_block_entities(chunk: ChunkView, bound: nat, min_y: int, key: u32)
    ensures
        chunk.block_entity_records_below(bound, min_y).contains(
            chunk.block_entity_record(key, min_y),
        ) <== (key < bound && chunk.block_entities.contains_key(key) && chunk.block_entity_kind(
            key,
        ) is Some),
        chunk.block_entity_records_below(bound, min_y).len() <= bound,
    decreases bound,
{
    if bound > 0 {
        law_records_are_the_block_entities(chunk, (bound - 1) as nat, min_y, key);
        let below = chunk.block_entity_records_below((bound - 1) as nat, min_y);
        let all = chunk.block_entity_records_below(bound, min_y);
        let last = (bound - 1) as u32;
        if chunk.block_entities.contains_key(last) && chunk.block_entity_kind(last) is Some {
            if key == last {
                assert(all[below.len() as int] == chunk.block_entity_record(key, min_y));
            } else if key < bound && chunk.block_entities.contains_key(key)
                && chunk.block_entity_kind(key) is Some {
                let i = choose|i: int|
                    0 <= i < below.len() && below[i] == chunk.block_entity_record(key, min_y);
                assert(all[i] == chunk.block_entity_record(key, min_y));
            }
        }
    }
}

/// A viewer count that does not pass the largest 32-bit number on the way
/// is after `n` counts up the count plus `n`.
pub proof fn lemma_inc_viewers_by(count: u32, n: nat)
    requires
        count + n <= u32::MAX,
    ensures
        spec_inc_viewers_by(count, n) == count + n,
    decreases n,
{
    if n > 0 {
        lemma_inc_viewers_by(count, (n - 1) as nat);
    }
}

/// A viewer count of at least `n` is after `n` counts down the count less
/// `n`.
pub proof fn lemma_dec_viewers_by(count: u32, n: nat)
    requires
        n <= count,
    ensures
        spec_dec_viewers_by(count, n) == count - n,
    decreases n,
{
    if n > 0 {
        lemma_dec_viewers_by(count, (n - 1) as nat);
    }
}

/// `n` clients that come into view and `n` that go out of view leave the
/// viewer count where it was, as long as the count does not pass the largest
/// 32-bit number on the way.
pub proof fn law_viewers_return(count: u32, n: nat)
    requires
        count + n <= u32::MAX,
    ensures
        spec_dec_viewers_by(spec_inc_viewers_by(count, n), n) == count,
{
    lemma_inc_viewers_by(count, n);
    lemma_dec_viewers_by((count + n) as u32, n);
}

} // verus!
