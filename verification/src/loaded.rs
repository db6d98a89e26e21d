//! A chunk that the server keeps loaded: the chunk's data, the number of
//! clients that see it, and the bytes of the packet that shows it to a
//! client, kept until the chunk changes.

use vstd::prelude::*;
use valence_nbt::Compound;
use crate::block::BiomeId;
use crate::block::BlockState;
use crate::chunk::spec_block_entity_key;
use crate::chunk::Chunk;
use crate::chunk::ChunkView;
use crate::packet::build_chunk_packet;
use crate::packet::empty_compound;
use crate::packet::spec_chunk_packet;
use crate::packet::spec_empty_compound_bytes;
use crate::packet::LightData;
use crate::packet::LightView;
use crate::pos::ChunkPos;

verus! {

/// From which length on a packet is compressed. A negative number switches
/// compression off.
#[derive(Clone, Copy, Debug, PartialEq, Eq, Structural, Hash)]
pub struct CompressionThreshold(pub i32);

impl CompressionThreshold {
    /// The length above which a packet is compressed, if compression is on.
    pub open spec fn spec_limit(self) -> Option<u32> {
        if self.0 >= 0 {
            Some(self.0 as u32)
        } else {
            None
        }
    }

    /// The length above which a packet is compressed, if compression is on.
    #[verifier::when_used_as_spec(spec_limit)]
    pub fn limit(self) -> (limit: Option<u32>)
        ensures
            limit == self.spec_limit(),
    {
        if self.0 >= 0 {
            Some(self.0 as u32)
        } else {
            None
        }
    }
}

/// What a layer of chunks tells each of its chunks when a packet is built.
#[derive(Clone, Debug)]
pub struct ChunkLayerInfo {
    /// The name of the dimension type of the layer.
    pub dimension_type_name: String,
    /// The height of the layer in blocks.
    pub height: u32,
    /// The height in the world of the lowest block of the layer.
    pub min_y: i32,
    /// The number of biomes in the biome registry.
    pub biome_registry_len: usize,
    /// The compression threshold of the layer.
    pub threshold: CompressionThreshold,
}

/// The viewer count after one more client came into view. The count wraps
/// around at the largest 32-bit number.
pub open spec fn spec_inc_viewers(count: u32) -> u32 {
    if count == u32::MAX {
        0
    } else {
        (count + 1) as u32
    }
}

/// The viewer count after one client went out of view.
pub open spec fn spec_dec_viewers(count: u32) -> u32
    recommends
        count > 0,
{
    (count - 1) as u32
}

/// The viewer count after `n` more clients came into view.
pub open spec fn spec_inc_viewers_by(count: u32, n: nat) -> u32
    decreases n,
{
    if n == 0 {
        count
    } else {
        spec_inc_viewers(spec_inc_viewers_by(count, (n - 1) as nat))
    }
}

/// The viewer count after `n` clients went out of view.
pub open spec fn spec_dec_viewers_by(count: u32, n: nat) -> u32
    decreases n,
{
    if n == 0 {
        count
    } else {
        spec_dec_viewers(spec_dec_viewers_by(count, (n - 1) as nat))
    }
}

/// What a loaded chunk holds.
pub struct LoadedChunkView {
    /// The chunk's data.
    pub chunk: ChunkView,
    /// The number of clients that see the chunk.
    pub viewer_count: u32,
    /// The bytes of the packet that shows the chunk, or no bytes where the
    /// packet has to be built anew.
    pub cache: Seq<u8>,
}

impl LoadedChunkView {
    /// A chunk of air of `height / 16` sections that nobody sees, without a
    /// packet.
    pub open spec fn new(height: u32) -> LoadedChunkView {
        LoadedChunkView {
            chunk: ChunkView::with_height(height),
            viewer_count: 0,
            cache: Seq::empty(),
        }
    }

    /// Whether the packet is kept.
    pub open spec fn cache_valid(self) -> bool {
        self.cache.len() > 0
    }

    /// The chunk with the data `chunk` and without a packet.
    pub open spec fn changed_to(self, chunk: ChunkView) -> LoadedChunkView {
        LoadedChunkView { chunk, viewer_count: self.viewer_count, cache: Seq::empty() }
    }

    /// The chunk with the data `chunk`; the packet is kept where `same`
    /// holds, and dropped where it does not.
    pub open spec fn changed_unless(self, same: bool, chunk: ChunkView) -> LoadedChunkView {
        LoadedChunkView {
            chunk,
            viewer_count: self.viewer_count,
            cache: if same {
                self.cache
            } else {
                Seq::empty()
            },
        }
    }

    /// The chunk after its data is replaced by `chunk`, resized to the height
    /// of this chunk. The packet is dropped.
    pub open spec fn replace(self, chunk: ChunkView) -> LoadedChunkView {
        self.changed_to(chunk.set_height(self.chunk.height() as u32))
    }

    /// The chunk after the block at `(x, y, z)` is set to the state `raw`.
    /// The packet is kept where the block had that state already.
    pub open spec fn set_block_state(self, x: u32, y: u32, z: u32, raw: u32) -> LoadedChunkView {
        self.changed_unless(
            raw == self.chunk.block_raw(x, y, z),
            self.chunk.set_block(x, y, z, raw),
        )
    }

    /// The chunk after the biome at `(x, y, z)` is set to `raw`. The packet
    /// is kept where the cell had that biome already.
    pub open spec fn set_biome(self, x: u32, y: u32, z: u32, raw: u32) -> LoadedChunkView {
        self.changed_unless(
            raw == self.chunk.biome_raw(x, y, z),
            self.chunk.set_biome(x, y, z, raw),
        )
    }

    /// The chunk after every block of section `sect_y` is set to `raw`. The
    /// packet is dropped.
    pub open spec fn fill_block_state_section(self, sect_y: int, raw: u32) -> LoadedChunkView {
        self.changed_to(self.chunk.fill_block_section(sect_y, raw))
    }

    /// The chunk after every biome cell of section `sect_y` is set to `raw`.
    /// The packet is dropped.
    pub open spec fn fill_biome_section(self, sect_y: int, raw: u32) -> LoadedChunkView {
        self.changed_to(self.chunk.fill_biome_section(sect_y, raw))
    }

    /// The chunk after every block is set to `raw`, section by section. The
    /// packet is dropped if there is a section.
    pub open spec fn fill_block_states(self, raw: u32) -> LoadedChunkView {
        self.changed_unless(self.chunk.sections.len() == 0, self.chunk.fill_blocks(raw))
    }

    /// The chunk after every biome cell is set to `raw`, section by section.
    /// The packet is dropped if there is a section.
    pub open spec fn fill_biomes(self, raw: u32) -> LoadedChunkView {
        self.changed_unless(self.chunk.sections.len() == 0, self.chunk.fill_biomes(raw))
    }

    /// The chunk after the block entity with key `key` is set to `payload`,
    /// or taken away where `payload` is `None`. The packet is dropped.
    pub open spec fn set_block_entity(self, key: u32, payload: Option<Compound>) -> LoadedChunkView {
        self.changed_to(self.chunk.set_block_entity(key, payload))
    }

    /// The chunk without its block entities. The packet is kept where there
    /// was none to take away.
    pub open spec fn clear_block_entities(self) -> LoadedChunkView {
        self.changed_unless(
            self.chunk.block_entities.dom().is_empty(),
            self.chunk.clear_block_entities(),
        )
    }

    /// The chunk resized to `height / 16` sections. The packet is kept where
    /// that is the number of sections that it has.
    pub open spec fn set_height(self, height: u32) -> LoadedChunkView {
        self.changed_unless(
            height / 16 == self.chunk.sections.len(),
            self.chunk.set_height(height),
        )
    }

    /// The chunk with its data in the smallest form. Nothing that a client
    /// could see changes, so the packet is kept.
    pub open spec fn shrink_to_fit(self) -> LoadedChunkView {
        LoadedChunkView {
            chunk: self.chunk.shrink_to_fit(),
            viewer_count: self.viewer_count,
            cache: self.cache,
        }
    }

    /// Whether the packet for the chunk can be built: every section can be
    /// written, and the height in the world of every block entity that the
    /// packet lists fits 16 bits.
    pub open spec fn can_build(self, info: ChunkLayerInfo) -> bool {
        &&& self.chunk.encodable(info.biome_registry_len as nat)
        &&& self.chunk.block_entities_fit(info.min_y as int)
    }

    /// The bytes of the packet that shows the chunk at `pos` in a layer with
    /// the parameters `info`: the position, heightmaps without tags, the
    /// sections from the bottom up, the block entities, and no light.
    pub open spec fn init_packet(self, pos: ChunkPos, info: ChunkLayerInfo) -> Seq<u8> {
        spec_chunk_packet(
            pos.x,
            pos.z,
            spec_empty_compound_bytes(),
            self.chunk.blocks_and_biomes(info.biome_registry_len as nat),
            self.chunk.block_entity_records(info.min_y as int),
            LightView::empty(),
            info.threshold.spec_limit(),
        )
    }

    /// The chunk after its packet was asked for: a packet that is kept stays
    /// as it is, whatever `pos` and `info` are; otherwise the packet is built
    /// from the chunk's data and kept.
    pub open spec fn write_init_packets(self, pos: ChunkPos, info: ChunkLayerInfo) -> LoadedChunkView {
        if self.cache_valid() {
            self
        } else {
            LoadedChunkView {
                chunk: self.chunk,
                viewer_count: self.viewer_count,
                cache: self.init_packet(pos, info),
            }
        }
    }
}

/// A chunk that the server keeps loaded.
pub struct LoadedChunk {
    /// The chunk's data.
    chunk: Chunk,
    /// The number of clients that see the chunk.
    viewer_count: u32,
    /// The bytes of the packet that shows the chunk. No bytes mean that the
    /// packet has to be built anew.
    cached_init_packets: Vec<u8>,
}

impl View for LoadedChunk {
    type V = LoadedChunkView;

    closed spec fn view(&self) -> LoadedChunkView {
        LoadedChunkView {
            chunk: self.chunk@,
            viewer_count: self.viewer_count,
            cache: self.cached_init_packets@,
        }
    }
}

impl LoadedChunk {
    /// The chunk's data is well formed.
    pub closed spec fn wf(&self) -> bool {
        self.chunk.wf()
    }

    /// A well-formed loaded chunk has well-formed data.
    pub proof fn lemma_wf(&self)
        requires
            self.wf(),
        ensures
            self@.chunk.wf(),
    {
        self.chunk.lemma_wf();
    }

    /// A chunk of air of `height / 16` sections that nobody sees.
    pub fn new(height: u32) -> (loaded: LoadedChunk)
        ensures
            loaded.wf(),
            loaded@ == LoadedChunkView::new(height),
    {
        LoadedChunk {
            chunk: Chunk::with_height(height),
            viewer_count: 0,
            cached_init_packets: Vec::new(),
        }
    }

    /// Replaces the chunk's data by `chunk`, resized to the height of this
    /// chunk, drops the packet, and returns the data that was there.
    pub fn replace(&mut self, chunk: Chunk) -> (previous: Chunk)
        requires
            old(self).wf(),
            chunk.wf(),
        ensures
            final(self).wf(),
            final(self)@ == old(self)@.replace(chunk@),
            previous.wf(),
            previous@ == old(self)@.chunk,
    {
        let mut chunk = chunk;
        chunk.set_height(self.height());
        self.cached_init_packets.clear();
        std::mem::swap(&mut self.chunk, &mut chunk);
        chunk
    }

    /// Gives up the chunk's data.
    pub fn into_chunk(self) -> (chunk: Chunk)
        requires
            self.wf(),
        ensures
            chunk.wf(),
            chunk@ == self@.chunk,
    {
        self.chunk
    }

    /// A copy of the chunk's data.
    pub fn to_chunk(&self) -> (chunk: Chunk)
        requires
            self.wf(),
        ensures
            chunk.wf(),
            chunk@ == self@.chunk,
    {
        self.chunk.duplicate()
    }

    /// The number of clients that see the chunk.
    pub fn viewer_count(&self) -> (count: u32)
        ensures
            count == self@.viewer_count,
    {
        self.viewer_count
    }

    /// The number of clients that see the chunk.
    pub fn viewer_count_mut(&mut self) -> (count: u32)
        ensures
            count == old(self)@.viewer_count,
            *final(self) == *old(self),
    {
        self.viewer_count
    }

    /// Counts one more client that sees the chunk.
    pub fn inc_viewer_count(&mut self)
        ensures
            final(self)@ == (LoadedChunkView {
                viewer_count: spec_inc_viewers(old(self)@.viewer_count),
                ..old(self)@
            }),
            final(self).wf() == old(self).wf(),
    {
        self.viewer_count = if self.viewer_count == u32::MAX {
            0
        } else {
            self.viewer_count + 1
        };
    }

    /// Forgets who sees the chunk.
    pub fn reset_viewer_count(&mut self)
        ensures
            final(self)@ == (LoadedChunkView { viewer_count: 0, ..old(self)@ }),
            final(self).wf() == old(self).wf(),
    {
        self.viewer_count = 0;
    }

    /// Counts one client less that sees the chunk. There has to be one.
    pub fn dec_viewer_count(&mut self)
        requires
            old(self)@.viewer_count > 0,
        ensures
            final(self)@ == (LoadedChunkView {
                viewer_count: spec_dec_viewers(old(self)@.viewer_count),
                ..old(self)@
            }),
            final(self).wf() == old(self).wf(),
    {
        self.viewer_count = self.viewer_count - 1;
    }

    /// The bytes of the packet that shows the chunk, as far as they are kept.
    pub fn cached_init_packets(&self) -> (bytes: &Vec<u8>)
        ensures
            bytes@ == self@.cache,
    {
        &self.cached_init_packets
    }

    /// Whether the packet can be asked for: one is kept, or one can be built
    /// for a layer with the parameters `info`.
    pub fn can_write_init_packets(&self, info: &ChunkLayerInfo) -> (ok: bool)
        requires
            self.wf(),
        ensures
            ok == (self@.cache_valid() || self@.can_build(*info)),
    {
        if !self.cached_init_packets.is_empty() {
            return true;
        }
        self.chunk.can_encode(info.biome_registry_len) && self.chunk.block_entities_fit(info.min_y)
    }

    /// Appends to `writer` the bytes of the packet that shows the chunk at
    /// `pos` to a client. The packet is built only if none is kept, and is
    /// kept from then on.
    pub fn write_init_packets(&mut self, writer: &mut Vec<u8>, pos: ChunkPos, info: &ChunkLayerInfo)
        requires
            old(self).wf(),
            !old(self)@.cache_valid() ==> old(self)@.can_build(*info),
        ensures
            final(self).wf(),
            final(self)@ == old(self)@.write_init_packets(pos, *info),
            final(writer)@ == old(writer)@ + final(self)@.cache,
    {
        if self.cached_init_packets.is_empty() {
            let blocks_and_biomes = self.chunk.encode_sections(info.biome_registry_len);
            let records = self.chunk.block_entity_records(info.min_y);
            let heightmaps = empty_compound();
            let light = LightData::empty();
            let bytes = build_chunk_packet(
                pos.x,
                pos.z,
                &heightmaps,
                &blocks_and_biomes,
                &records,
                &light,
                info.threshold.limit(),
            );
            self.cached_init_packets = bytes;
        }
        let _ = self.write_cached_init_packets(writer);
    }

    /// Appends to `writer` the bytes of the packet that shows the chunk at
    /// `pos`, as `write_init_packets` does, where a packet is kept or can be
    /// built, and tells whether it did. Where none is kept and none can be
    /// built, nothing changes.
    pub fn try_write_init_packets(
        &mut self,
        writer: &mut Vec<u8>,
        pos: ChunkPos,
        info: &ChunkLayerInfo,
    ) -> (written: bool)
        requires
            old(self).wf(),
        ensures
            final(self).wf(),
            written == (old(self)@.cache_valid() || old(self)@.can_build(*info)),
            written ==> final(self)@ == old(self)@.write_init_packets(pos, *info) && final(writer)@
                == old(writer)@ + final(self)@.cache,
            !written ==> final(self)@ == old(self)@ && final(writer)@ == old(writer)@,
    {
        if self.can_write_init_packets(info) {
            self.write_init_packets(writer, pos, info);
            true
        } else {
            false
        }
    }

    /// Appends to `writer` the bytes of the packet that shows the chunk, if
    /// the packet is kept, and tells whether it is. Nothing is built and
    /// nothing changes, so that many can ask at once.
    pub fn write_cached_init_packets(&self, writer: &mut Vec<u8>) -> (hit: bool)
        ensures
            hit == self@.cache_valid(),
            final(writer)@ == old(writer)@ + self@.cache,
    {
        let mut i: usize = 0;
        assert(self.cached_init_packets@.take(0) =~= Seq::<u8>::empty());
        assert(writer@ =~= old(writer)@ + self.cached_init_packets@.take(0));
        while i < self.cached_init_packets.len()
            invariant
                i <= self.cached_init_packets@.len(),
                writer@ == old(writer)@ + self.cached_init_packets@.take(i as int),
            decreases self.cached_init_packets@.len() - i,
        {
            writer.push(self.cached_init_packets[i]);
            assert(self.cached_init_packets@.take(i + 1) =~= self.cached_init_packets@.take(
                i as int,
            ).push(self.cached_init_packets@[i as int]));
            i = i + 1;
        }
        assert(self.cached_init_packets@.take(i as int) =~= self.cached_init_packets@);
        i > 0
    }

    /// The height in blocks.
    pub fn height(&self) -> (height: u32)
        requires
            self.wf(),
        ensures
            height == self@.chunk.height(),
    {
        self.chunk.height()
    }

    /// Resizes the chunk to `height / 16` sections, and drops the packet if
    /// that changes the number of sections.
    pub fn set_height(&mut self, height: u32)
        requires
            old(self).wf(),
        ensures
            final(self).wf(),
            final(self)@ == old(self)@.set_height(height),
    {
        let before = self.chunk.section_count();
        self.chunk.set_height(height);
        if (height / 16) as usize != before {
            self.cached_init_packets.clear();
        }
    }

    /// The state of the block at `(x, y, z)`.
    pub fn block_state(&self, x: u32, y: u32, z: u32) -> (block: BlockState)
        requires
            self.wf(),
            self@.chunk.has_block(x, y, z),
        ensures
            block.id() == self@.chunk.block_raw(x, y, z),
    {
        self.chunk.block_state(x, y, z)
    }

    /// Sets the block at `(x, y, z)` and returns the state that it had. The
    /// packet is dropped unless the block had the state `block` already.
    pub fn set_block_state(&mut self, x: u32, y: u32, z: u32, block: BlockState) -> (old_block:
        BlockState)
        requires
            old(self).wf(),
            old(self)@.chunk.has_block(x, y, z),
        ensures
            final(self).wf(),
            final(self)@ == old(self)@.set_block_state(x, y, z, block.id() as u32),
            old_block.id() == old(self)@.chunk.block_raw(x, y, z),
    {
        let old_block = self.chunk.set_block_state(x, y, z, block);
        proof {
            block.lemma_id_decides(old_block);
        }
        if block != old_block {
            self.cached_init_packets.clear();
        }
        old_block
    }

    /// Sets every block of section `sect_y` to `block` and drops the packet.
    pub fn fill_block_state_section(&mut self, sect_y: u32, block: BlockState)
        requires
            old(self).wf(),
            sect_y < old(self)@.chunk.sections.len(),
        ensures
            final(self).wf(),
            final(self)@ == old(self)@.fill_block_state_section(sect_y as int, block.id() as u32),
    {
        self.chunk.fill_block_state_section(sect_y, block);
        self.cached_init_packets.clear();
    }

    /// Sets every block of the chunk to `block`, and drops the packet if the
    /// chunk has a section.
    pub fn fill_block_states(&mut self, block: BlockState)
        requires
            old(self).wf(),
        ensures
            final(self).wf(),
            final(self)@ == old(self)@.fill_block_states(block.id() as u32),
    {
        let count = self.chunk.section_count();
        self.chunk.fill_block_states(block);
        if count > 0 {
            self.cached_init_packets.clear();
        }
    }

    /// The payload of the block entity at `(x, y, z)`, if there is one.
    pub fn block_entity(&self, x: u32, y: u32, z: u32) -> (payload: Option<&Compound>)
        requires
            self.wf(),
            self@.chunk.has_block(x, y, z),
            y < 0x100_0000,
        ensures
            payload == (if self@.chunk.block_entities.contains_key(
                spec_block_entity_key(x, y, z) as u32,
            ) {
                Some(&self@.chunk.block_entities[spec_block_entity_key(x, y, z) as u32])
            } else {
                None
            }),
    {
        self.chunk.block_entity(x, y, z)
    }

    /// The payload of the block entity at `(x, y, z)`, if there is one, for
    /// the caller to change in place. The packet is dropped if there is one.
    pub fn block_entity_mut(&mut self, x: u32, y: u32, z: u32) -> (payload: Option<&mut Compound>)
        requires
            old(self).wf(),
            old(self)@.chunk.has_block(x, y, z),
            y < 0x100_0000,
        ensures
            final(self).wf(),
            match payload {
                Some(nbt) => {
                    &&& old(self)@.chunk.block_entities.contains_key(
                        spec_block_entity_key(x, y, z) as u32,
                    )
                    &&& *nbt == old(self)@.chunk.block_entities[spec_block_entity_key(x, y, z) as u32]
                    &&& final(self)@ == old(self)@.set_block_entity(
                        spec_block_entity_key(x, y, z) as u32,
                        Some(*final(nbt)),
                    )
                },
                None => {
                    &&& !old(self)@.chunk.block_entities.contains_key(
                        spec_block_entity_key(x, y, z) as u32,
                    )
                    &&& final(self)@ == old(self)@
                },
            },
    {
        let payload = self.chunk.block_entity_mut(x, y, z);
        if payload.is_some() {
            self.cached_init_packets.clear();
        }
        payload
    }

    /// Sets the payload of the block entity at `(x, y, z)`, or takes the block
    /// entity away where `payload` is `None`. The packet is dropped. Returns
    /// the payload that was there.
    pub fn set_block_entity(&mut self, x: u32, y: u32, z: u32, payload: Option<Compound>) -> (old_payload:
        Option<Compound>)
        requires
            old(self).wf(),
            old(self)@.chunk.has_block(x, y, z),
            y < 0x100_0000,
        ensures
            final(self).wf(),
            final(self)@ == old(self)@.set_block_entity(
                spec_block_entity_key(x, y, z) as u32,
                payload,
            ),
            old_payload == old(self)@.chunk.block_entities.get(spec_block_entity_key(x, y, z) as u32),
    {
        self.cached_init_packets.clear();
        self.chunk.set_block_entity(x, y, z, payload)
    }

    /// Takes every block entity away, and drops the packet if there was one
    /// to take away.
    pub fn clear_block_entities(&mut self)
        requires
            old(self).wf(),
        ensures
            final(self).wf(),
            final(self)@ == old(self)@.clear_block_entities(),
    {
        if self.chunk.has_no_block_entities() {
            assert(self@.chunk.block_entities =~= Map::<u32, Compound>::empty());
            return ;
        }
        self.chunk.clear_block_entities();
        self.cached_init_packets.clear();
    }

    /// Brings the chunk's data into the smallest form that holds it. The
    /// packet is kept.
    pub fn shrink_to_fit(&mut self)
        requires
            old(self).wf(),
        ensures
            final(self).wf(),
            final(self)@ == old(self)@.shrink_to_fit(),
    {
        self.chunk.shrink_to_fit();
    }

    /// The biome at `(x, y, z)`, in biome cells.
    pub fn biome(&self, x: u32, y: u32, z: u32) -> (biome: BiomeId)
        requires
            self.wf(),
            self@.chunk.has_biome(x, y, z),
        ensures
            biome.id() == self@.chunk.biome_raw(x, y, z),
    {
        self.chunk.biome(x, y, z)
    }

    /// Sets the biome at `(x, y, z)` and returns the biome that was there.
    /// The packet is dropped unless the cell had the biome `biome` already.
    pub fn set_biome(&mut self, x: u32, y: u32, z: u32, biome: BiomeId) -> (old_biome: BiomeId)
        requires
            old(self).wf(),
            old(self)@.chunk.has_biome(x, y, z),
        ensures
            final(self).wf(),
            final(self)@ == old(self)@.set_biome(x, y, z, biome.id()),
            old_biome.id() == old(self)@.chunk.biome_raw(x, y, z),
    {
        let old_biome = self.chunk.set_biome(x, y, z, biome);
        proof {
            biome.lemma_id_decides(old_biome);
        }
        if biome != old_biome {
            self.cached_init_packets.clear();
        }
        old_biome
    }

    /// Sets every biome cell of section `sect_y` to `biome` and drops the
    /// packet.
    pub fn fill_biome_section(&mut self, sect_y: u32, biome: BiomeId)
        requires
            old(self).wf(),
            sect_y < old(self)@.chunk.sections.len(),
        ensures
            final(self).wf(),
            final(self)@ == old(self)@.fill_biome_section(sect_y as int, biome.id()),
    {
        self.chunk.fill_biome_section(sect_y, biome);
        self.cached_init_packets.clear();
    }

    /// Sets every biome cell of the chunk to `biome`, and drops the packet if
    /// the chunk has a section.
    pub fn fill_biomes(&mut self, biome: BiomeId)
        requires
            old(self).wf(),
        ensures
            final(self).wf(),
            final(self)@ == old(self)@.fill_biomes(biome.id()),
    {
        let count = self.chunk.section_count();
        self.chunk.fill_biomes(biome);
        if count > 0 {
            self.cached_init_packets.clear();
        }
    }
}

} // verus!
