use loaded_chunks::block::BiomeId;
use loaded_chunks::block::BlockState;
use loaded_chunks::chunk::Chunk;
use loaded_chunks::loaded::ChunkLayerInfo;
use loaded_chunks::loaded::CompressionThreshold;
use loaded_chunks::loaded::LoadedChunk;
use loaded_chunks::packet::build_chunk_packet;
use loaded_chunks::packet::BlockEntityRecord;
use loaded_chunks::packet::LightData;
use loaded_chunks::pos::ChunkPos;
use valence_nbt::Compound;
use valence_nbt::Value;
use valence_protocol::decode::PacketDecoder;
use valence_protocol::packets::play::ChunkDataS2c;

fn layer_info() -> ChunkLayerInfo {
    ChunkLayerInfo {
        dimension_type_name: String::from("whatever"),
        height: 512,
        min_y: -16,
        biome_registry_len: 200,
        threshold: CompressionThreshold(-1),
    }
}

fn state(raw: u16) -> BlockState {
    BlockState::from_raw(raw).unwrap()
}

fn acacia_wood() -> BlockState {
    state(valence_protocol::BlockState::ACACIA_WOOD.to_raw())
}

fn wet_sponge() -> BlockState {
    state(valence_protocol::BlockState::WET_SPONGE.to_raw())
}

fn check<T>(chunk: &mut LoadedChunk, change: impl FnOnce(&mut LoadedChunk) -> T) {
    let info = layer_info();

    let mut buf = vec![];

    // Rebuild cache.
    chunk.write_init_packets(&mut buf, ChunkPos::new(3, 4), &info);

    // Check that the cache is built.
    assert!(!chunk.cached_init_packets().is_empty());

    // Making a change should clear the cache.
    change(chunk);
    assert!(chunk.cached_init_packets().is_empty());

    // Rebuild cache again.
    chunk.write_init_packets(&mut buf, ChunkPos::new(3, 4), &info);
    assert!(!chunk.cached_init_packets().is_empty());
}

#[test]
fn loaded_chunk_changes_clear_packet_cache() {
    let mut chunk = LoadedChunk::new(512);

    check(&mut chunk, |c| c.set_block_state(0, 4, 0, acacia_wood()));
    check(&mut chunk, |c| c.set_biome(1, 2, 3, BiomeId::from_index(4)));
    check(&mut chunk, |c| c.fill_biomes(BiomeId::default()));
    check(&mut chunk, |c| c.fill_block_states(wet_sponge()));
    check(&mut chunk, |c| c.set_block_entity(3, 40, 5, Some(Compound::new())));
    check(&mut chunk, |c| {
        c.block_entity_mut(3, 40, 5).unwrap();
    });
    check(&mut chunk, |c| c.set_block_entity(3, 40, 5, None));

    // Old block state is the same as new block state, so the cache should still be
    // intact.
    assert_eq!(chunk.set_block_state(0, 0, 0, wet_sponge()), wet_sponge());

    assert!(!chunk.cached_init_packets().is_empty());
}

fn decode_and_check(
    bytes: &[u8],
    pos: (i32, i32),
    blocks_and_biomes: &[u8],
    block_entities: &[(i8, i16, i32, Compound)],
) {
    let mut decoder = PacketDecoder::new();
    decoder.queue_slice(bytes);
    let frame = decoder.try_next_packet().unwrap().unwrap();
    assert!(decoder.try_next_packet().unwrap().is_none());
    let packet: ChunkDataS2c = frame.decode().unwrap();
    assert_eq!(packet.pos, valence_protocol::ChunkPos::new(pos.0, pos.1));
    assert_eq!(packet.heightmaps.as_ref(), &Compound::new());
    assert_eq!(packet.blocks_and_biomes, blocks_and_biomes);
    assert_eq!(packet.block_entities.len(), block_entities.len());
    for (got, want) in packet.block_entities.iter().zip(block_entities) {
        assert_eq!(got.packed_xz, want.0);
        assert_eq!(got.y, want.1);
        assert_eq!(got.kind.0, want.2);
        assert_eq!(got.data.as_ref(), &want.3);
    }
    assert!(packet.sky_light_mask.is_empty());
    assert!(packet.block_light_mask.is_empty());
    assert!(packet.empty_sky_light_mask.is_empty());
    assert!(packet.empty_block_light_mask.is_empty());
    assert!(packet.sky_light_arrays.is_empty());
    assert!(packet.block_light_arrays.is_empty());
}

#[test]
fn packet_of_an_empty_chunk() {
    let mut chunk = LoadedChunk::new(512);
    assert!(chunk.cached_init_packets().is_empty());
    let mut out = vec![];
    chunk.write_init_packets(&mut out, ChunkPos::new(3, 4), &layer_info());
    assert!(!out.is_empty());
    assert_eq!(&out, chunk.cached_init_packets());
    let empty_section = [0u8, 0, 0, 0, 0, 0, 0, 0];
    let sections: Vec<u8> = (0..32).flat_map(|_| empty_section).collect();
    decode_and_check(&out, (3, 4), &sections, &[]);
}

#[test]
fn packet_reflects_a_block_change() {
    let mut chunk = LoadedChunk::new(512);
    let info = layer_info();
    let mut first = vec![];
    chunk.write_init_packets(&mut first, ChunkPos::new(3, 4), &info);
    let old = chunk.set_block_state(0, 4, 0, acacia_wood());
    assert_eq!(old, BlockState::air());
    assert!(chunk.cached_init_packets().is_empty());
    let mut second = vec![];
    chunk.write_init_packets(&mut second, ChunkPos::new(3, 4), &info);
    assert!(!chunk.cached_init_packets().is_empty());
    assert_ne!(first, second);

    let mut sections = chunk.to_chunk().encode_sections(200);
    // One block that is not air, a palette of air and acacia wood at four bits.
    assert_eq!(&sections[..9], &[0, 1, 4, 2, 0, 0xca, 0x01, 0x80, 0x02]);
    decode_and_check(&second, (3, 4), &sections, &[]);
    // The block is cell 1024 of section 0: the first cell of word 64.
    let word = 9 + 64 * 8;
    assert_eq!(&sections[word..word + 8], &[0, 0, 0, 0, 0, 0, 0, 1]);
    sections.truncate(9 + 256 * 8 + 3);
    assert_eq!(sections.len(), 2 + 7 + 2048 + 3);
}

#[test]
fn packet_lists_block_entities() {
    let mut chunk = LoadedChunk::new(64);
    let chest = state(valence_protocol::BlockState::CHEST.to_raw());
    let mut payload = Compound::new();
    payload.insert("Lock", Value::String(String::from("key")));
    chunk.set_block_state(3, 40, 5, chest);
    chunk.set_block_entity(3, 40, 5, Some(payload.clone()));
    chunk.set_block_entity(4, 40, 5, Some(Compound::new()));
    let mut out = vec![];
    chunk.write_init_packets(&mut out, ChunkPos::new(-7, 9), &layer_info());
    let sections = chunk.to_chunk().encode_sections(200);
    decode_and_check(&out, (-7, 9), &sections, &[(53, 24, 1, payload)]);
}

#[test]
fn kept_packet_is_replayed_as_it_is() {
    let mut chunk = LoadedChunk::new(32);
    let info = layer_info();
    let mut first = vec![];
    chunk.write_init_packets(&mut first, ChunkPos::new(1, 2), &info);
    // The packet is kept whatever is asked for next.
    let mut second = vec![0xee];
    chunk.write_init_packets(&mut second, ChunkPos::new(5, 6), &info);
    assert_eq!(&second[1..], &first[..]);
    assert_eq!(chunk.cached_init_packets(), &first);
}

#[test]
fn writing_the_same_value_keeps_the_packet() {
    let mut chunk = LoadedChunk::new(32);
    let info = layer_info();
    chunk.set_block_state(1, 1, 1, wet_sponge());
    chunk.set_biome(1, 1, 1, BiomeId::from_index(3));
    let mut out = vec![];
    chunk.write_init_packets(&mut out, ChunkPos::new(0, 0), &info);
    assert_eq!(chunk.set_block_state(1, 1, 1, wet_sponge()), wet_sponge());
    assert_eq!(chunk.set_biome(1, 1, 1, BiomeId::from_index(3)), BiomeId::from_index(3));
    assert_eq!(chunk.set_block_state(2, 2, 2, BlockState::air()), BlockState::air());
    chunk.clear_block_entities();
    chunk.set_height(32);
    chunk.set_height(40);
    assert!(chunk.block_entity_mut(0, 0, 0).is_none());
    assert_eq!(chunk.cached_init_packets(), &out);
}

#[test]
fn each_change_drops_the_packet() {
    let info = layer_info();
    let changes: Vec<fn(&mut LoadedChunk)> = vec![
        |c| {
            c.set_block_state(0, 0, 0, state(1));
        },
        |c| {
            c.set_biome(0, 0, 0, BiomeId::from_index(1));
        },
        |c| c.fill_block_state_section(0, BlockState::air()),
        |c| c.fill_biome_section(1, BiomeId::default()),
        |c| c.fill_block_states(BlockState::air()),
        |c| c.fill_biomes(BiomeId::default()),
        |c| {
            c.set_block_entity(0, 0, 0, Some(Compound::new()));
        },
        |c| {
            c.set_block_entity(0, 0, 0, None);
        },
        |c| {
            c.block_entity_mut(9, 9, 9).unwrap();
        },
        |c| c.clear_block_entities(),
        |c| c.set_height(16),
        |c| c.set_height(48),
        |c| {
            c.replace(Chunk::new());
        },
    ];
    for change in changes {
        let mut chunk = LoadedChunk::new(32);
        chunk.set_block_entity(9, 9, 9, Some(Compound::new()));
        let mut out = vec![];
        chunk.write_init_packets(&mut out, ChunkPos::new(0, 0), &info);
        assert!(!chunk.cached_init_packets().is_empty());
        change(&mut chunk);
        assert!(chunk.cached_init_packets().is_empty());
    }
}

#[test]
fn replace_resizes_and_returns_the_old_data() {
    let mut loaded = LoadedChunk::new(48);
    loaded.set_block_state(1, 1, 1, state(3));
    loaded.inc_viewer_count();
    let mut data = Chunk::with_height(16);
    data.set_block_state(2, 2, 2, state(4));
    let old = loaded.replace(data);
    assert_eq!(old.height(), 48);
    assert_eq!(old.block_state(1, 1, 1), state(3));
    assert_eq!(loaded.height(), 48);
    assert_eq!(loaded.block_state(2, 2, 2), state(4));
    assert_eq!(loaded.block_state(1, 1, 1), BlockState::air());
    assert_eq!(loaded.viewer_count(), 1);
    let copy = loaded.to_chunk();
    assert_eq!(copy.height(), 48);
    assert_eq!(copy.block_state(2, 2, 2), state(4));
    let data = loaded.into_chunk();
    assert_eq!(data.block_state(2, 2, 2), state(4));
}

#[test]
fn viewers_are_counted() {
    let mut chunk = LoadedChunk::new(16);
    assert_eq!(chunk.viewer_count(), 0);
    for _ in 0..5 {
        chunk.inc_viewer_count();
    }
    assert_eq!(chunk.viewer_count(), 5);
    assert_eq!(chunk.viewer_count_mut(), 5);
    for _ in 0..5 {
        chunk.dec_viewer_count();
    }
    assert_eq!(chunk.viewer_count(), 0);
}

#[test]
fn viewer_count_follows_the_passthroughs() {
    let mut chunk = LoadedChunk::new(16);
    chunk.inc_viewer_count();
    chunk.set_block_state(0, 0, 0, state(1));
    chunk.fill_biomes(BiomeId::from_index(2));
    assert_eq!(chunk.viewer_count(), 1);
    assert_eq!(chunk.biome(3, 3, 3), BiomeId::from_index(2));
    assert!(chunk.block_entity(0, 0, 0).is_none());
}

#[test]
fn compression_threshold_sentinel() {
    assert_eq!(CompressionThreshold(-1).limit(), None);
    assert_eq!(CompressionThreshold(i32::MIN).limit(), None);
    assert_eq!(CompressionThreshold(0).limit(), Some(0));
    assert_eq!(CompressionThreshold(256).limit(), Some(256));
    assert_eq!(CompressionThreshold(i32::MAX).limit(), Some(i32::MAX as u32));
}

fn decode_compressed(bytes: &[u8], threshold: u32) -> Vec<u8> {
    let mut decoder = PacketDecoder::new();
    decoder.set_compression(Some(threshold));
    decoder.queue_slice(bytes);
    let frame = decoder.try_next_packet().unwrap().unwrap();
    assert!(decoder.try_next_packet().unwrap().is_none());
    let packet: ChunkDataS2c = frame.decode().unwrap();
    packet.blocks_and_biomes.to_vec()
}

#[test]
fn long_packets_are_compressed() {
    let mut info = layer_info();
    info.threshold = CompressionThreshold(256);
    let mut chunk = LoadedChunk::new(512);
    chunk.set_block_state(0, 4, 0, acacia_wood());
    let mut plain = vec![];
    chunk.write_init_packets(&mut plain, ChunkPos::new(3, 4), &layer_info());
    chunk.set_block_state(0, 4, 0, BlockState::air());
    chunk.set_block_state(0, 4, 0, acacia_wood());
    let mut packed = vec![];
    chunk.write_init_packets(&mut packed, ChunkPos::new(3, 4), &info);
    assert!(!packed.is_empty());
    assert!(packed.len() < plain.len() / 2);
    assert_eq!(decode_compressed(&packed, 256), chunk.to_chunk().encode_sections(200));
}

#[test]
fn short_packets_are_framed_for_compression() {
    let mut info = layer_info();
    info.threshold = CompressionThreshold(100_000);
    let mut chunk = LoadedChunk::new(32);
    let mut plain = vec![];
    chunk.write_init_packets(&mut plain, ChunkPos::new(3, 4), &layer_info());
    chunk.fill_biomes(BiomeId::default());
    let mut framed = vec![];
    chunk.write_init_packets(&mut framed, ChunkPos::new(3, 4), &info);
    // The frame has one byte more: a data length of zero.
    assert_eq!(framed.len(), plain.len() + 1);
    assert_eq!(framed[0], plain[0] + 1);
    assert_eq!(framed[1], 0);
    assert_eq!(&framed[2..], &plain[1..]);
    assert_eq!(decode_compressed(&framed, 100_000), chunk.to_chunk().encode_sections(200));
}

#[test]
fn chunk_packet_is_framed_with_its_length() {
    let bytes = build_chunk_packet(
        1,
        -1,
        &Compound::new(),
        &vec![1, 2, 3],
        &vec![],
        &LightData::empty(),
        None,
    );
    assert!(!bytes.is_empty());
    assert_eq!(bytes[0] as usize, bytes.len() - 1);
    decode_and_check(&bytes, (1, -1), &[1, 2, 3], &[]);
}

#[test]
fn can_write_init_packets_tells_when_a_packet_can_be_built() {
    let info = layer_info();
    let mut chunk = LoadedChunk::new(64);
    assert!(chunk.can_write_init_packets(&info));

    let mut compressed = layer_info();
    compressed.threshold = CompressionThreshold(256);
    assert!(chunk.can_write_init_packets(&compressed));

    // Biomes that need more than a palette of three bits have to fit the
    // registry.
    for i in 0..9usize {
        chunk.set_biome((i % 4) as u32, (i / 4) as u32, 0, BiomeId::from_index(i * 20));
    }
    assert!(chunk.can_write_init_packets(&info));
    let mut small = layer_info();
    small.biome_registry_len = 100;
    assert!(!chunk.can_write_init_packets(&small));
    small.biome_registry_len = 0;
    assert!(!chunk.can_write_init_packets(&small));

    // A payload where the block carries no block entity may lie anywhere.
    let mut tall = LoadedChunk::new(64);
    tall.set_block_entity(0, 63, 0, Some(Compound::new()));
    let mut high = layer_info();
    high.min_y = i32::MAX;
    assert!(tall.can_write_init_packets(&high));
    high.min_y = i32::MIN;
    assert!(tall.can_write_init_packets(&high));

    // Block entities have to lie at a height that fits 16 bits.
    tall.set_block_state(0, 63, 0, state(valence_protocol::BlockState::CHEST.to_raw()));
    high.min_y = 32767 - 63;
    assert!(tall.can_write_init_packets(&high));
    high.min_y = 32767 - 62;
    assert!(!tall.can_write_init_packets(&high));
    high.min_y = -32768 - 63;
    assert!(tall.can_write_init_packets(&high));
    high.min_y = -32768 - 64;
    assert!(!tall.can_write_init_packets(&high));

    // A packet that is kept can always be asked for.
    let mut out = vec![];
    tall.write_init_packets(&mut out, ChunkPos::new(0, 0), &info);
    assert!(tall.can_write_init_packets(&high));
}

#[test]
fn shrinking_keeps_the_packet() {
    let mut chunk = LoadedChunk::new(32);
    let info = layer_info();
    for i in 0..20u16 {
        chunk.set_block_state((i % 16) as u32, (i / 16) as u32, 0, state(i + 1));
    }
    chunk.fill_block_state_section(1, state(7));
    for i in 0..20u16 {
        chunk.set_block_state((i % 16) as u32, (i / 16) as u32, 0, state(7));
    }
    let mut out = vec![];
    chunk.write_init_packets(&mut out, ChunkPos::new(0, 0), &info);
    let before = chunk.to_chunk().encode_sections(200);
    chunk.shrink_to_fit();
    assert_eq!(chunk.cached_init_packets(), &out);
    assert_eq!(chunk.block_state(3, 0, 0), state(7));
    assert_eq!(chunk.block_state(3, 5, 0), BlockState::air());
    let after = chunk.to_chunk().encode_sections(200);
    assert!(after.len() < before.len());
}

#[test]
fn a_kept_packet_can_be_read_without_changing_the_chunk() {
    let mut chunk = LoadedChunk::new(32);
    let mut out = vec![1, 2];
    assert!(!chunk.write_cached_init_packets(&mut out));
    assert_eq!(out, vec![1, 2]);
    let mut built = vec![];
    chunk.write_init_packets(&mut built, ChunkPos::new(0, 0), &layer_info());
    assert!(chunk.write_cached_init_packets(&mut out));
    assert_eq!(&out[..2], &[1, 2]);
    assert_eq!(&out[2..], &built[..]);
}

#[test]
fn empty_compound_in_the_binary_tag_format() {
    let mut bytes = vec![];
    Compound::new().to_binary(&mut bytes, "").unwrap();
    assert_eq!(bytes, vec![10, 0, 0, 0]);
}

#[test]
fn chunk_packet_carries_every_field() {
    let mut heightmaps = Compound::new();
    heightmaps.insert("MOTION_BLOCKING", Value::LongArray(vec![1, 2, 3]));
    let mut payload = Compound::new();
    payload.insert("id", Value::Int(7));
    let records = vec![BlockEntityRecord { packed_xz: 18, y: -3, kind: 5, data: &payload }];
    let light = LightData {
        sky_light_mask: vec![1],
        block_light_mask: vec![2, 3],
        empty_sky_light_mask: vec![4],
        empty_block_light_mask: vec![],
        sky_light_arrays: vec![[9; 2048]],
        block_light_arrays: vec![[1; 2048], [2; 2048]],
    };
    let bytes = build_chunk_packet(-2, 8, &heightmaps, &vec![4, 5], &records, &light, None);
    let mut decoder = PacketDecoder::new();
    decoder.queue_slice(&bytes);
    let frame = decoder.try_next_packet().unwrap().unwrap();
    let packet: ChunkDataS2c = frame.decode().unwrap();
    assert_eq!(packet.pos, valence_protocol::ChunkPos::new(-2, 8));
    assert_eq!(packet.heightmaps.as_ref(), &heightmaps);
    assert_eq!(packet.blocks_and_biomes, &[4, 5]);
    assert_eq!(packet.block_entities.len(), 1);
    assert_eq!(packet.block_entities[0].packed_xz, 18);
    assert_eq!(packet.block_entities[0].y, -3);
    assert_eq!(packet.block_entities[0].kind.0, 5);
    assert_eq!(packet.block_entities[0].data.as_ref(), &payload);
    assert_eq!(packet.sky_light_mask.as_ref(), &[1]);
    assert_eq!(packet.block_light_mask.as_ref(), &[2, 3]);
    assert_eq!(packet.empty_sky_light_mask.as_ref(), &[4]);
    assert!(packet.empty_block_light_mask.is_empty());
    assert_eq!(packet.sky_light_arrays.len(), 1);
    assert_eq!(packet.sky_light_arrays[0].0, [9; 2048]);
    assert_eq!(packet.block_light_arrays.len(), 2);
    assert_eq!(packet.block_light_arrays[1].0, [2; 2048]);
}

#[test]
fn try_write_init_packets_writes_only_what_can_be_built() {
    let mut chunk = LoadedChunk::new(64);
    chunk.set_block_state(0, 63, 0, state(valence_protocol::BlockState::CHEST.to_raw()));
    chunk.set_block_entity(0, 63, 0, Some(Compound::new()));
    let mut high = layer_info();
    high.min_y = 40_000;
    let mut out = vec![7];
    assert!(!chunk.try_write_init_packets(&mut out, ChunkPos::new(0, 0), &high));
    assert_eq!(out, vec![7]);
    assert!(chunk.cached_init_packets().is_empty());
    assert!(chunk.try_write_init_packets(&mut out, ChunkPos::new(0, 0), &layer_info()));
    assert!(out.len() > 1);
    assert_eq!(&out[1..], &chunk.cached_init_packets()[..]);
    // A packet that is kept is written whatever is asked for.
    let mut again = vec![];
    assert!(chunk.try_write_init_packets(&mut again, ChunkPos::new(0, 0), &high));
    assert_eq!(&again, chunk.cached_init_packets());
}

#[test]
fn lingering_payloads_do_not_stop_the_packet() {
    let mut chunk = LoadedChunk::new(64);
    chunk.set_block_entity(0, 63, 0, Some(Compound::new()));
    let mut high = layer_info();
    high.min_y = 40_000;
    let mut out = vec![];
    assert!(chunk.try_write_init_packets(&mut out, ChunkPos::new(1, 1), &high));
    let sections = chunk.to_chunk().encode_sections(200);
    decode_and_check(&out, (1, 1), &sections, &[]);
}

#[test]
fn viewer_count_can_be_reset() {
    let mut chunk = LoadedChunk::new(16);
    chunk.inc_viewer_count();
    chunk.inc_viewer_count();
    chunk.reset_viewer_count();
    assert_eq!(chunk.viewer_count(), 0);
}
