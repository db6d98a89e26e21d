//! The packet that shows a chunk to a client, as the protocol crate writes
//! it.

use vstd::prelude::*;
use std::borrow::Cow;
use valence_nbt::Compound;
use valence_protocol::encode::PacketWriter;
use valence_protocol::encode::WritePacket;
use valence_protocol::packets::play::chunk_data_s2c::ChunkDataBlockEntity;
use valence_protocol::packets::play::ChunkDataS2c;
use valence_protocol::ChunkPos;
use valence_protocol::LengthPrefixedArray;
use valence_protocol::VarInt;

verus! {

/// One block entity as the packet lists it.
pub struct BlockEntityView {
    /// The place within the chunk's footprint: x in the high half of the
    /// byte, z in the low half.
    pub packed_xz: i8,
    /// The height in the world.
    pub y: i16,
    /// The id of the kind of block entity.
    pub kind: i32,
    /// The payload.
    pub data: Compound,
}

/// One block entity as the packet lists it, with its payload on loan from
/// the chunk.
pub struct BlockEntityRecord<'a> {
    pub packed_xz: i8,
    pub y: i16,
    pub kind: i32,
    pub data: &'a Compound,
}

impl<'a> View for BlockEntityRecord<'a> {
    type V = BlockEntityView;

    open spec fn view(&self) -> BlockEntityView {
        BlockEntityView { packed_xz: self.packed_xz, y: self.y, kind: self.kind, data: *self.data }
    }
}

/// The light of a chunk as the packet carries it: which sections have sky
/// light and block light, which have none at all, and the light of each
/// section that has some, two blocks to a byte.
pub struct LightData {
    pub sky_light_mask: Vec<u64>,
    pub block_light_mask: Vec<u64>,
    pub empty_sky_light_mask: Vec<u64>,
    pub empty_block_light_mask: Vec<u64>,
    pub sky_light_arrays: Vec<[u8; 2048]>,
    pub block_light_arrays: Vec<[u8; 2048]>,
}

/// What the light of a chunk holds.
pub struct LightView {
    pub sky_light_mask: Seq<u64>,
    pub block_light_mask: Seq<u64>,
    pub empty_sky_light_mask: Seq<u64>,
    pub empty_block_light_mask: Seq<u64>,
    pub sky_light_arrays: Seq<Seq<u8>>,
    pub block_light_arrays: Seq<Seq<u8>>,
}

impl LightView {
    /// No light at all: every mask and both lists are empty.
    pub open spec fn empty() -> LightView {
        LightView {
            sky_light_mask: Seq::empty(),
            block_light_mask: Seq::empty(),
            empty_sky_light_mask: Seq::empty(),
            empty_block_light_mask: Seq::empty(),
            sky_light_arrays: Seq::empty(),
            block_light_arrays: Seq::empty(),
        }
    }
}

impl View for LightData {
    type V = LightView;

    open spec fn view(&self) -> LightView {
        LightView {
            sky_light_mask: self.sky_light_mask@,
            block_light_mask: self.block_light_mask@,
            empty_sky_light_mask: self.empty_sky_light_mask@,
            empty_block_light_mask: self.empty_block_light_mask@,
            sky_light_arrays: self.sky_light_arrays@.map_values(|a: [u8; 2048]| a@),
            block_light_arrays: self.block_light_arrays@.map_values(|a: [u8; 2048]| a@),
        }
    }
}

impl LightData {
    /// No light at all.
    pub fn empty() -> (light: LightData)
        ensures
            light@ == LightView::empty(),
    {
        let light = LightData {
            sky_light_mask: Vec::new(),
            block_light_mask: Vec::new(),
            empty_sky_light_mask: Vec::new(),
            empty_block_light_mask: Vec::new(),
            sky_light_arrays: Vec::new(),
            block_light_arrays: Vec::new(),
        };
        assert(light@.sky_light_arrays =~= Seq::<Seq<u8>>::empty());
        assert(light@.block_light_arrays =~= Seq::<Seq<u8>>::empty());
        light
    }
}

/// The tags that a compound holds, as the bytes that the binary tag format
/// has for the compound under an empty root name.
pub uninterp spec fn compound_bytes(nbt: Compound) -> Seq<u8>;

/// The bytes of a compound without tags: the compound tag, a root name of
/// length zero, and the end tag.
pub open spec fn spec_empty_compound_bytes() -> Seq<u8> {
    seq![10u8, 0u8, 0u8, 0u8]
}

/// Calls `Compound::new` of `valence_nbt`, which makes a compound without
/// tags. The binary tag format writes for it the compound tag, the empty
/// root name and the end tag.
#[verifier::external_body]
pub(crate) fn empty_compound() -> (nbt: Compound)
    ensures
        compound_bytes(nbt) == spec_empty_compound_bytes(),
{
    Compound::new()
}

/// The bytes of the framed chunk-data packet for the chunk at `(x, z)` with
/// the given heightmaps, section data, block entities and light, the
/// heightmaps given by their bytes and each block entity by its packed
/// place, height, kind and payload bytes. With a threshold the frame is that
/// of a connection with compression, and a packet longer than the threshold
/// is compressed. Empty where the protocol crate refuses the packet, as it
/// does one that is longer than the protocol allows.
pub uninterp spec fn chunk_packet_bytes(
    x: i32,
    z: i32,
    heightmaps: Seq<u8>,
    blocks_and_biomes: Seq<u8>,
    block_entities: Seq<(i8, i16, i32, Seq<u8>)>,
    sky_light_mask: Seq<u64>,
    block_light_mask: Seq<u64>,
    empty_sky_light_mask: Seq<u64>,
    empty_block_light_mask: Seq<u64>,
    sky_light_arrays: Seq<Seq<u8>>,
    block_light_arrays: Seq<Seq<u8>>,
    threshold: Option<u32>,
) -> Seq<u8>;

/// The block entities with their payloads taken as bytes.
pub open spec fn plain_block_entities(records: Seq<BlockEntityView>) -> Seq<
    (i8, i16, i32, Seq<u8>),
> {
    records.map_values(|r: BlockEntityView| (r.packed_xz, r.y, r.kind, compound_bytes(r.data)))
}

/// The views of the records, in order.
pub open spec fn record_views(records: Seq<BlockEntityRecord<'_>>) -> Seq<BlockEntityView> {
    records.map_values(|r: BlockEntityRecord<'_>| r@)
}

/// The bytes of the packet for the chunk at `(x, z)` with the given
/// heightmaps, section data, block entities and light, framed for a
/// connection with the compression threshold `threshold`.
pub open spec fn spec_chunk_packet(
    x: i32,
    z: i32,
    heightmaps: Seq<u8>,
    blocks_and_biomes: Seq<u8>,
    block_entities: Seq<BlockEntityView>,
    light: LightView,
    threshold: Option<u32>,
) -> Seq<u8> {
    chunk_packet_bytes(
        x,
        z,
        heightmaps,
        blocks_and_biomes,
        plain_block_entities(block_entities),
        light.sky_light_mask,
        light.block_light_mask,
        light.empty_sky_light_mask,
        light.empty_block_light_mask,
        light.sky_light_arrays,
        light.block_light_arrays,
        threshold,
    )
}

/// The framed chunk-data packet for the chunk at `(x, z)`, or no bytes where
/// the packet cannot be encoded.
pub fn build_chunk_packet(
    x: i32,
    z: i32,
    heightmaps: &Compound,
    blocks_and_biomes: &Vec<u8>,
    records: &Vec<BlockEntityRecord<'_>>,
    light: &LightData,
    threshold: Option<u32>,
) -> (bytes: Vec<u8>)
    ensures
        bytes@ == spec_chunk_packet(
            x,
            z,
            compound_bytes(*heightmaps),
            blocks_and_biomes@,
            record_views(records@),
            light@,
            threshold,
        ),
{
    let bytes = encode_chunk_packet(
        x,
        z,
        heightmaps,
        blocks_and_biomes,
        records,
        &light.sky_light_mask,
        &light.block_light_mask,
        &light.empty_sky_light_mask,
        &light.empty_block_light_mask,
        &light.sky_light_arrays,
        &light.block_light_arrays,
        threshold,
    );
    assert(records@.map_values(
        |r: BlockEntityRecord<'_>| (r.packed_xz, r.y, r.kind, compound_bytes(*r.data)),
    ) =~= plain_block_entities(record_views(records@)));
    bytes
}

/// Calls `PacketWriter::write_packet` of `valence_protocol` on an empty
/// buffer, with the compression threshold `threshold` and a `ChunkDataS2c`
/// packet whose fields are the other arguments. The writer appends the
/// framed packet, or nothing where encoding fails; what it appends depends
/// on the packet and the threshold alone.
#[verifier::external_body]
fn encode_chunk_packet(
    x: i32,
    z: i32,
    heightmaps: &Compound,
    blocks_and_biomes: &Vec<u8>,
    records: &Vec<BlockEntityRecord<'_>>,
    sky_mask: &Vec<u64>,
    block_mask: &Vec<u64>,
    empty_sky_mask: &Vec<u64>,
    empty_block_mask: &Vec<u64>,
    sky_arrays: &Vec<[u8; 2048]>,
    block_arrays: &Vec<[u8; 2048]>,
    threshold: Option<u32>,
) -> (bytes: Vec<u8>)
    ensures
        bytes@ == chunk_packet_bytes(
            x,
            z,
            compound_bytes(*heightmaps),
            blocks_and_biomes@,
            records@.map_values(
                |r: BlockEntityRecord<'_>| (r.packed_xz, r.y, r.kind, compound_bytes(*r.data)),
            ),
            sky_mask@,
            block_mask@,
            empty_sky_mask@,
            empty_block_mask@,
            sky_arrays@.map_values(|a: [u8; 2048]| a@),
            block_arrays@.map_values(|a: [u8; 2048]| a@),
            threshold,
        ),
{
    let mut bytes = Vec::new();
    PacketWriter::new(&mut bytes, threshold).write_packet(&ChunkDataS2c {
        pos: ChunkPos::new(x, z), heightmaps: Cow::Borrowed(heightmaps), blocks_and_biomes,
        block_entities: records.iter().map(|r| ChunkDataBlockEntity {
            packed_xz: r.packed_xz, y: r.y, kind: VarInt(r.kind), data: Cow::Borrowed(r.data),
        }).collect(),
        sky_light_mask: sky_mask.into(), block_light_mask: block_mask.into(),
        empty_sky_light_mask: empty_sky_mask.into(),
        empty_block_light_mask: empty_block_mask.into(),
        sky_light_arrays: sky_arrays.iter().copied().map(LengthPrefixedArray).collect(),
        block_light_arrays: block_arrays.iter().copied().map(LengthPrefixedArray).collect(),
    });
    bytes
}

} // verus!
