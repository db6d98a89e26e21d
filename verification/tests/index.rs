use loaded_chunks::block::BlockState;
use loaded_chunks::chunk::Chunk;
use loaded_chunks::index::ChunkIndex;
use loaded_chunks::index::Entry;
use loaded_chunks::loaded::ChunkLayerInfo;
use loaded_chunks::loaded::CompressionThreshold;
use loaded_chunks::pos::ChunkPos;

fn state(raw: u16) -> BlockState {
    BlockState::from_raw(raw).unwrap()
}

fn marked(height: u32, raw: u16) -> Chunk {
    let mut chunk = Chunk::with_height(height);
    chunk.set_block_state(0, 0, 0, state(raw));
    chunk
}

#[test]
fn positions_convert() {
    assert_eq!(ChunkPos::from((3, -4)), ChunkPos::new(3, -4));
    assert_eq!(ChunkPos::from([3, -4]), ChunkPos { x: 3, z: -4 });
    let pos: ChunkPos = (1, 2).into();
    assert_eq!(pos.x, 1);
    assert_eq!(pos.z, 2);
}

#[test]
fn new_index_is_empty() {
    let mut index = ChunkIndex::new(512);
    assert_eq!(index.height(), 512);
    assert!(index.get(ChunkPos::new(0, 0)).is_none());
    assert!(index.get_mut(ChunkPos::new(0, 0)).is_none());
    assert!(index.remove(ChunkPos::new(0, 0)).is_none());
}

#[test]
fn insert_then_get() {
    let mut index = ChunkIndex::new(512);
    assert!(index.insert(ChunkPos::new(3, 4), marked(512, 7)).is_none());
    let loaded = index.get(ChunkPos::new(3, 4)).unwrap();
    assert_eq!(loaded.height(), 512);
    assert_eq!(loaded.block_state(0, 0, 0), state(7));
    assert_eq!(loaded.viewer_count(), 0);
    assert!(loaded.cached_init_packets().is_empty());
    assert!(index.get(ChunkPos::new(4, 3)).is_none());
    assert!(index.get(ChunkPos::new(3, -4)).is_none());
}

#[test]
fn inserted_chunks_take_the_height_of_the_index() {
    let mut index = ChunkIndex::new(512);
    index.insert(ChunkPos::new(0, 0), marked(64, 7));
    index.insert(ChunkPos::new(0, 1), marked(1024, 8));
    index.insert(ChunkPos::new(0, 2), Chunk::new());
    for z in 0..3 {
        assert_eq!(index.get(ChunkPos::new(0, z)).unwrap().height(), 512);
    }
    assert_eq!(index.get(ChunkPos::new(0, 0)).unwrap().block_state(0, 0, 0), state(7));
    assert_eq!(index.get(ChunkPos::new(0, 1)).unwrap().block_state(0, 0, 0), state(8));

    let mut odd = ChunkIndex::new(100);
    odd.insert(ChunkPos::new(0, 0), marked(512, 7));
    assert_eq!(odd.get(ChunkPos::new(0, 0)).unwrap().height(), 96);
}

#[test]
fn insert_replaces_and_returns_the_old_data() {
    let mut index = ChunkIndex::new(32);
    let pos = ChunkPos::new(-1, i32::MIN);
    assert!(index.insert(pos, marked(32, 7)).is_none());
    index.get_mut(pos).unwrap().inc_viewer_count();
    let old = index.insert(pos, marked(32, 8)).unwrap();
    assert_eq!(old.block_state(0, 0, 0), state(7));
    let loaded = index.get(pos).unwrap();
    assert_eq!(loaded.block_state(0, 0, 0), state(8));
    // An inserted chunk is a new chunk: the viewers of the old one are gone.
    assert_eq!(loaded.viewer_count(), 0);
    assert!(loaded.cached_init_packets().is_empty());
}

#[test]
fn insert_discards_viewers_and_packet() {
    let info = ChunkLayerInfo {
        dimension_type_name: String::from("whatever"),
        height: 32,
        min_y: 0,
        biome_registry_len: 10,
        threshold: CompressionThreshold(-1),
    };
    let mut index = ChunkIndex::new(32);
    let pos = ChunkPos::new(5, 6);
    index.insert(pos, marked(32, 7));
    {
        let loaded = index.get_mut(pos).unwrap();
        for _ in 0..3 {
            loaded.inc_viewer_count();
        }
        let mut out = vec![];
        loaded.write_init_packets(&mut out, pos, &info);
        assert_eq!(loaded.viewer_count(), 3);
        assert!(!loaded.cached_init_packets().is_empty());
    }
    let old = index.insert(pos, marked(64, 9)).unwrap();
    assert_eq!(old.block_state(0, 0, 0), state(7));
    let loaded = index.get(pos).unwrap();
    assert_eq!(loaded.viewer_count(), 0);
    assert!(loaded.cached_init_packets().is_empty());
    assert_eq!(loaded.height(), 32);
    assert_eq!(loaded.block_state(0, 0, 0), state(9));
}

#[test]
fn positions_do_not_collide() {
    let mut index = ChunkIndex::new(16);
    let corners = [
        (0, 0), (0, 1), (1, 0), (-1, 0), (0, -1), (-1, -1),
        (i32::MAX, i32::MAX), (i32::MIN, i32::MIN), (i32::MAX, i32::MIN), (i32::MIN, i32::MAX),
        (i32::MAX, 0), (0, i32::MAX),
    ];
    for (i, (x, z)) in corners.iter().enumerate() {
        assert!(index.insert(ChunkPos::new(*x, *z), marked(16, i as u16 + 1)).is_none());
    }
    for (i, (x, z)) in corners.iter().enumerate() {
        let loaded = index.get(ChunkPos::new(*x, *z)).unwrap();
        assert_eq!(loaded.block_state(0, 0, 0), state(i as u16 + 1));
    }
}

#[test]
fn get_mut_changes_the_stored_chunk() {
    let mut index = ChunkIndex::new(32);
    let pos = ChunkPos::new(2, 2);
    index.insert(pos, Chunk::new());
    index.get_mut(pos).unwrap().set_block_state(1, 1, 1, state(9));
    assert_eq!(index.get(pos).unwrap().block_state(1, 1, 1), state(9));
}

#[test]
fn remove_returns_the_data() {
    let mut index = ChunkIndex::new(32);
    let pos = ChunkPos::new(2, 2);
    index.insert(pos, marked(32, 5));
    index.insert(ChunkPos::new(2, 3), marked(32, 6));
    let data = index.remove(pos).unwrap();
    assert_eq!(data.block_state(0, 0, 0), state(5));
    assert_eq!(data.height(), 32);
    assert!(index.get(pos).is_none());
    assert!(index.remove(pos).is_none());
    assert!(index.get(ChunkPos::new(2, 3)).is_some());
}

#[test]
fn vacant_entry() {
    let mut index = ChunkIndex::new(48);
    let pos = ChunkPos::new(7, 8);
    match index.entry(pos) {
        Entry::Occupied(_) => panic!("nothing was stored"),
        Entry::Vacant(v) => {
            assert_eq!(v.key(), &pos);
            assert_eq!(v.into_key(), pos);
        }
    }
    assert!(index.get(pos).is_none());
    match index.entry(pos) {
        Entry::Occupied(_) => panic!("nothing was stored"),
        Entry::Vacant(v) => {
            let loaded = v.insert(marked(16, 3));
            assert_eq!(loaded.height(), 48);
            loaded.inc_viewer_count();
        }
    }
    let loaded = index.get(pos).unwrap();
    assert_eq!(loaded.block_state(0, 0, 0), state(3));
    assert_eq!(loaded.viewer_count(), 1);
}

#[test]
fn occupied_entry() {
    let mut index = ChunkIndex::new(48);
    let pos = ChunkPos::new(7, 8);
    index.insert(pos, marked(48, 3));
    match index.entry(pos) {
        Entry::Vacant(_) => panic!("a chunk was stored"),
        Entry::Occupied(mut o) => {
            assert_eq!(o.key(), &pos);
            assert_eq!(o.get().block_state(0, 0, 0), state(3));
            o.get_mut().inc_viewer_count();
            let old = o.insert(marked(16, 4));
            assert_eq!(old.block_state(0, 0, 0), state(3));
            assert_eq!(o.get().height(), 48);
            assert_eq!(o.get().viewer_count(), 1);
            o.into_mut().set_block_state(1, 1, 1, state(5));
        }
    }
    let loaded = index.get(pos).unwrap();
    assert_eq!(loaded.block_state(0, 0, 0), state(4));
    assert_eq!(loaded.block_state(1, 1, 1), state(5));
    match index.entry(pos) {
        Entry::Vacant(_) => panic!("a chunk was stored"),
        Entry::Occupied(o) => {
            let (key, data) = o.remove_entry();
            assert_eq!(key, pos);
            assert_eq!(data.block_state(1, 1, 1), state(5));
        }
    }
    assert!(index.get(pos).is_none());
    index.insert(pos, marked(48, 6));
    match index.entry(pos) {
        Entry::Vacant(_) => panic!("a chunk was stored"),
        Entry::Occupied(o) => assert_eq!(o.remove().block_state(0, 0, 0), state(6)),
    }
    assert!(index.get(pos).is_none());
}

#[test]
fn or_default_creates_an_empty_chunk() {
    let mut index = ChunkIndex::new(64);
    let pos = ChunkPos::new(0, 0);
    {
        let loaded = index.entry(pos).or_default();
        assert_eq!(loaded.height(), 64);
        assert_eq!(loaded.block_state(0, 0, 0), BlockState::air());
        assert_eq!(loaded.viewer_count(), 0);
        loaded.set_block_state(0, 0, 0, state(2));
    }
    {
        let loaded = index.entry(pos).or_default();
        assert_eq!(loaded.block_state(0, 0, 0), state(2));
    }
}

#[test]
fn index_of_height_512_builds_a_packet() {
    let info = ChunkLayerInfo {
        dimension_type_name: String::from("whatever"),
        height: 512,
        min_y: -16,
        biome_registry_len: 200,
        threshold: CompressionThreshold(-1),
    };
    let mut index = ChunkIndex::new(512);
    index.insert(ChunkPos::new(3, 4), Chunk::new());
    let loaded = index.get_mut(ChunkPos::new(3, 4)).unwrap();
    assert!(loaded.cached_init_packets().is_empty());
    let mut out = vec![];
    loaded.write_init_packets(&mut out, ChunkPos::new(3, 4), &info);
    assert!(!loaded.cached_init_packets().is_empty());
    // 32 sections of 8 bytes each, and a few bytes around them.
    assert!(out.len() > 32 * 8);
    assert!(out.len() < 32 * 8 + 32);
    loaded.set_block_state(0, 4, 0, state(202));
    assert!(loaded.cached_init_packets().is_empty());
    let mut again = vec![];
    loaded.write_init_packets(&mut again, ChunkPos::new(3, 4), &info);
    assert!(!loaded.cached_init_packets().is_empty());
    assert!(again.len() > out.len() + 2048);
}
