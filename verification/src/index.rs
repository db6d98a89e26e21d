//! The chunks that are loaded, found by their position.

use vstd::prelude::*;
use std::collections::hash_map;
use std::hash::BuildHasherDefault;
use rustc_hash::FxHashMap;
use rustc_hash::FxHasher;
use vstd::std_specs::hash::EntrySpecFns;
use vstd::std_specs::hash::OccupiedEntrySpecFns;
use vstd::std_specs::hash::VacantEntrySpecFns;
use crate::chunk::Chunk;
use crate::chunk::ChunkView;
use crate::loaded::LoadedChunk;
use crate::loaded::LoadedChunkView;
use crate::pos::ChunkPos;

verus! {

/// The hasher that the index hashes its keys with.
#[verifier::external_type_specification]
#[verifier::external_body]
pub struct ExFxHasher(FxHasher);

/// What makes a hasher of a given kind for a hash map.
#[verifier::external_type_specification]
#[verifier::external_body]
#[verifier::reject_recursive_types(H)]
pub struct ExBuildHasherDefault<H>(BuildHasherDefault<H>);

/// Calls `FxHashMap::default`: a hash map that hashes with `FxHasher`. The
/// map is empty.
#[verifier::external_body]
fn fx_map_new() -> (map: FxHashMap<u64, LoadedChunk>)
    ensures
        map@.dom() == Set::<u64>::empty(),
{
    FxHashMap::default()
}

/// Calls `HashMap::get` on a map that hashes with `FxHasher`: the value
/// stored under `key`, if there is one.
#[verifier::external_body]
fn fx_map_get(map: &FxHashMap<u64, LoadedChunk>, key: u64) -> (found:
    Option<&LoadedChunk>)
    ensures
        found == (if map@.contains_key(key) {
            Some(&map@[key])
        } else {
            None
        }),
{
    map.get(&key)
}

/// Calls `HashMap::entry` on a map that hashes with `FxHasher`. The entry is
/// that of `key`, it holds the value stored under `key` if there is one, and
/// when the entry is done with the map holds under `key` what the entry left
/// there, and is otherwise as before.
#[verifier::external_body]
fn fx_map_entry(
    map: &mut FxHashMap<u64, LoadedChunk>,
    key: u64,
) -> (entry: hash_map::Entry<'_, u64, LoadedChunk>)
    ensures
        entry.spec_key() == key,
        entry.value() == old(map)@.get(key),
        final(map)@ == (match entry.final_value() {
            Some(value) => old(map)@.insert(key, value),
            None => old(map)@.remove(key),
        }),
{
    map.entry(key)
}

/// The key under which the chunk at `pos` is stored: x in the high 32 bits,
/// z in the low 32 bits, each moved up by 2^31 so that it is not negative.
pub open spec fn spec_key(pos: ChunkPos) -> u64 {
    ((pos.x + 0x8000_0000) * 0x1_0000_0000 + (pos.z + 0x8000_0000)) as u64
}

/// Two positions with the same key are the same position.
pub proof fn lemma_key_decides(a: ChunkPos, b: ChunkPos)
    ensures
        spec_key(a) == spec_key(b) <==> a == b,
{
}

fn key_of(pos: ChunkPos) -> (key: u64)
    ensures
        key == spec_key(pos),
{
    let high: u64 = (pos.x as i64 + 0x8000_0000) as u64;
    let low: u64 = (pos.z as i64 + 0x8000_0000) as u64;
    high * 0x1_0000_0000 + low
}

/// The height of the chunks of an index made for the height `height`: the
/// whole sections that fit.
pub open spec fn spec_chunk_height(height: u32) -> nat {
    (height / 16 * 16) as nat
}

/// The loaded chunk that holds `chunk` in an index of height `height` after
/// an insert: the data is resized to the height of the index, nobody sees
/// the chunk, and no packet is kept. What was stored at the position before
/// does not matter: an inserted chunk is a new chunk.
pub open spec fn spec_stored(height: u32, chunk: ChunkView) -> LoadedChunkView {
    LoadedChunkView::new(height).replace(chunk)
}

/// The entries of `chunks` after `chunk` is inserted at `pos` into an index
/// of height `height`.
pub open spec fn spec_insert(
    chunks: Map<ChunkPos, LoadedChunkView>,
    height: u32,
    pos: ChunkPos,
    chunk: ChunkView,
) -> Map<ChunkPos, LoadedChunkView> {
    chunks.insert(pos, spec_stored(height, chunk))
}

/// The entry of a position that has a chunk.
pub struct OccupiedEntry<'a> {
    /// The entry of the map below.
    pub entry: hash_map::OccupiedEntry<'a, u64, LoadedChunk>,
    /// The position.
    pub pos: ChunkPos,
    /// The height of the index.
    pub height: u32,
}

/// The entry of a position that has no chunk.
pub struct VacantEntry<'a> {
    /// The entry of the map below.
    pub entry: hash_map::VacantEntry<'a, u64, LoadedChunk>,
    /// The position.
    pub pos: ChunkPos,
    /// The height of the index.
    pub height: u32,
}

/// The entry of a position in the index.
pub enum Entry<'a> {
    Occupied(OccupiedEntry<'a>),
    Vacant(VacantEntry<'a>),
}

/// Whether `loaded` can stand in an index of height `height`.
pub open spec fn fits_index(loaded: LoadedChunk, height: u32) -> bool {
    loaded.wf() && loaded@.chunk.height() == spec_chunk_height(height)
}

impl<'a> OccupiedEntry<'a> {
    /// The entry is that of its position, and its chunk fits the index.
    pub open spec fn wf(&self) -> bool {
        &&& self.entry.spec_key() == spec_key(self.pos)
        &&& fits_index(self.entry.value(), self.height)
    }

    /// The chunk of the entry.
    pub fn get(&self) -> (loaded: &LoadedChunk)
        ensures
            *loaded == self.entry.value(),
    {
        self.entry.get()
    }

    /// The chunk of the entry, for the caller to change.
    pub fn get_mut(&mut self) -> (loaded: &mut LoadedChunk)
        ensures
            *loaded == old(self).entry.value(),
            final(self).entry.value() == *final(loaded),
            final(self).entry.spec_key() == old(self).entry.spec_key(),
            final(self).entry.final_value() == old(self).entry.final_value(),
            final(self).pos == old(self).pos,
            final(self).height == old(self).height,
    {
        self.entry.get_mut()
    }

    /// Replaces the data of the chunk by `chunk`, resized to the height of
    /// the index, and returns the data that was there. Who sees the chunk
    /// stays; the packet is dropped.
    pub fn insert(&mut self, chunk: Chunk) -> (previous: Chunk)
        requires
            old(self).wf(),
            chunk.wf(),
        ensures
            final(self).wf(),
            final(self).entry.value()@ == old(self).entry.value()@.replace(chunk@),
            final(self).entry.final_value() == old(self).entry.final_value(),
            final(self).pos == old(self).pos,
            final(self).height == old(self).height,
            previous.wf(),
            previous@ == old(self).entry.value()@.chunk,
    {
        let loaded = self.entry.get_mut();
        proof {
            loaded.lemma_wf();
            chunk.lemma_wf();
            crate::laws::lemma_set_height_gives_height(chunk@, loaded@.chunk.height() as u32);
        }
        loaded.replace(chunk)
    }

    /// The chunk of the entry, for as long as the index is borrowed.
    pub fn into_mut(self) -> (loaded: &'a mut LoadedChunk)
        ensures
            *loaded == self.entry.value(),
            self.entry.final_value() == Some(*final(loaded)),
    {
        self.entry.into_mut()
    }

    /// The position of the entry.
    pub fn key(&self) -> (pos: &ChunkPos)
        ensures
            *pos == self.pos,
    {
        &self.pos
    }

    /// Takes the chunk out of the index and returns its data.
    pub fn remove(self) -> (chunk: Chunk)
        requires
            self.wf(),
        ensures
            chunk.wf(),
            chunk@ == self.entry.value()@.chunk,
            self.entry.final_value() == None::<LoadedChunk>,
    {
        self.remove_entry().1
    }

    /// Takes the chunk out of the index and returns its position and its
    /// data.
    pub fn remove_entry(self) -> (removed: (ChunkPos, Chunk))
        requires
            self.wf(),
        ensures
            removed.0 == self.pos,
            removed.1.wf(),
            removed.1@ == self.entry.value()@.chunk,
            self.entry.final_value() == None::<LoadedChunk>,
    {
        let pos = self.pos;
        let (_, loaded) = self.entry.remove_entry();
        (pos, loaded.into_chunk())
    }
}

impl<'a> VacantEntry<'a> {
    /// The entry is that of its position.
    pub open spec fn wf(&self) -> bool {
        self.entry.spec_key() == spec_key(self.pos)
    }

    /// Stores at the position a loaded chunk that nobody sees, with the data
    /// `chunk` resized to the height of the index.
    pub fn insert(self, chunk: Chunk) -> (loaded: &'a mut LoadedChunk)
        requires
            chunk.wf(),
        ensures
            fits_index(*loaded, self.height),
            loaded@ == spec_stored(self.height, chunk@),
            self.entry.final_value() == Some(*final(loaded)),
    {
        let mut loaded = LoadedChunk::new(self.height);
        proof {
            chunk.lemma_wf();
            crate::laws::lemma_set_height_gives_height(chunk@, loaded@.chunk.height() as u32);
        }
        loaded.replace(chunk);
        self.entry.insert(loaded)
    }

    /// Gives up the entry for its position.
    pub fn into_key(self) -> (pos: ChunkPos)
        ensures
            pos == self.pos,
            self.entry.final_value() == None::<LoadedChunk>,
    {
        let pos = self.pos;
        let _ = self.entry.into_key();
        pos
    }

    /// The position of the entry.
    pub fn key(&self) -> (pos: &ChunkPos)
        ensures
            *pos == self.pos,
    {
        &self.pos
    }
}

impl<'a> Entry<'a> {
    /// The entry is well formed.
    pub open spec fn wf(&self) -> bool {
        match self {
            Entry::Occupied(o) => o.wf(),
            Entry::Vacant(v) => v.wf(),
        }
    }

    /// The position of the entry.
    pub open spec fn pos(&self) -> ChunkPos {
        match self {
            Entry::Occupied(o) => o.pos,
            Entry::Vacant(v) => v.pos,
        }
    }

    /// The height of the index.
    pub open spec fn height(&self) -> u32 {
        match self {
            Entry::Occupied(o) => o.height,
            Entry::Vacant(v) => v.height,
        }
    }

    /// The chunk at the position; where there is none, an empty chunk of the
    /// height of the index is stored there first.
    pub fn or_default(self) -> (loaded: &'a mut LoadedChunk)
        requires
            self.wf(),
        ensures
            fits_index(*loaded, self.height()),
            match self {
                Entry::Occupied(o) => *loaded == o.entry.value() && o.entry.final_value() == Some(
                    *final(loaded),
                ),
                Entry::Vacant(v) => loaded@ == LoadedChunkView::new(v.height) && v.entry.final_value()
                    == Some(*final(loaded)),
            },
    {
        match self {
            Entry::Occupied(o) => o.into_mut(),
            Entry::Vacant(v) => {
                proof {
                    crate::laws::lemma_new_chunk_resized(v.height);
                }
                v.insert(Chunk::new())
            },
        }
    }
}

/// The loaded chunks of one layer, by position. All of them have the height
/// that the index was made for.
pub struct ChunkIndex {
    map: FxHashMap<u64, LoadedChunk>,
    height: u32,
}

impl View for ChunkIndex {
    type V = Map<ChunkPos, LoadedChunkView>;

    closed spec fn view(&self) -> Map<ChunkPos, LoadedChunkView> {
        Map::new(
            |pos: ChunkPos| self.map@.contains_key(spec_key(pos)),
            |pos: ChunkPos| self.map@[spec_key(pos)]@,
        )
    }
}

impl ChunkIndex {
    /// The height that the index was made for.
    pub closed spec fn spec_height(&self) -> u32 {
        self.height
    }

    /// Every chunk of the index is well formed and has the height of the
    /// index.
    pub closed spec fn wf(&self) -> bool {
        forall|key: u64| #[trigger]
            self.map@.contains_key(key) ==> fits_index(self.map@[key], self.height)
    }

    /// Every chunk of a well-formed index has well-formed data, and its
    /// height is that of the index: the whole sections that fit into the
    /// height that the index was made for.
    pub proof fn law_chunks_have_index_height(&self, pos: ChunkPos)
        requires
            self.wf(),
            self@.contains_key(pos),
        ensures
            self@[pos].chunk.wf(),
            self@[pos].chunk.height() == spec_chunk_height(self.spec_height()),
    {
        assert(self.map@.contains_key(spec_key(pos)));
        self.map@[spec_key(pos)].lemma_wf();
    }

    /// An index without chunks, for chunks of the height `height`.
    pub fn new(height: u32) -> (index: ChunkIndex)
        ensures
            index.wf(),
            index.spec_height() == height,
            index@ == Map::<ChunkPos, LoadedChunkView>::empty(),
    {
        let index = ChunkIndex { map: fx_map_new(), height };
        assert(index@ =~= Map::<ChunkPos, LoadedChunkView>::empty());
        index
    }

    /// The height that the index was made for.
    pub fn height(&self) -> (height: u32)
        ensures
            height == self.spec_height(),
    {
        self.height
    }

    /// The chunk at `pos`, if there is one.
    pub fn get(&self, pos: ChunkPos) -> (found: Option<&LoadedChunk>)
        requires
            self.wf(),
        ensures
            match found {
                Some(loaded) => self@.contains_key(pos) && loaded@ == self@[pos] && fits_index(
                    *loaded,
                    self.spec_height(),
                ),
                None => !self@.contains_key(pos),
            },
    {
        fx_map_get(&self.map, key_of(pos))
    }

    /// The chunk at `pos`, if there is one, for the caller to change. The
    /// index stays well formed if the chunk does and keeps its height.
    pub fn get_mut(&mut self, pos: ChunkPos) -> (found: Option<&mut LoadedChunk>)
        requires
            old(self).wf(),
        ensures
            final(self).spec_height() == old(self).spec_height(),
            found matches Some(loaded) ==> old(self)@.contains_key(pos),
            found matches Some(loaded) ==> loaded@ == old(self)@[pos],
            found matches Some(loaded) ==> fits_index(*loaded, old(self).spec_height()),
            found matches Some(loaded) ==> final(self)@ == old(self)@.insert(pos, final(loaded)@),
            found matches Some(loaded) ==> (fits_index(*final(loaded), old(self).spec_height()) ==> final(self).wf()),
            found is None ==> !old(self)@.contains_key(pos),
            found is None ==> final(self)@ == old(self)@,
            found is None ==> final(self).wf(),
    {
        match self.entry(pos) {
            Entry::Occupied(o) => Some(o.into_mut()),
            Entry::Vacant(_) => None,
        }
    }

    /// Stores `chunk` at `pos`, resized to the height of the index, and
    /// returns the data that was stored there. The stored chunk is a new
    /// chunk: nobody sees it and no packet is kept, also where a chunk with
    /// viewers was stored at `pos` before.
    pub fn insert(&mut self, pos: ChunkPos, chunk: Chunk) -> (previous: Option<Chunk>)
        requires
            old(self).wf(),
            chunk.wf(),
        ensures
            final(self).wf(),
            final(self).spec_height() == old(self).spec_height(),
            final(self)@ == spec_insert(old(self)@, old(self).spec_height(), pos, chunk@),
            match previous {
                Some(data) => old(self)@.contains_key(pos) && data.wf() && data@ == old(
                    self,
                )@[pos].chunk,
                None => !old(self)@.contains_key(pos),
            },
    {
        match self.entry(pos) {
            Entry::Occupied(mut o) => {
                let previous = o.insert(chunk);
                o.get_mut().reset_viewer_count();
                Some(previous)
            },
            Entry::Vacant(v) => {
                let _ = v.insert(chunk);
                None
            },
        }
    }

    /// Takes the chunk at `pos` out of the index and returns its data.
    pub fn remove(&mut self, pos: ChunkPos) -> (removed: Option<Chunk>)
        requires
            old(self).wf(),
        ensures
            final(self).wf(),
            final(self).spec_height() == old(self).spec_height(),
            final(self)@ == old(self)@.remove(pos),
            match removed {
                Some(data) => old(self)@.contains_key(pos) && data.wf() && data@ == old(
                    self,
                )@[pos].chunk,
                None => !old(self)@.contains_key(pos),
            },
    {
        match self.entry(pos) {
            Entry::Occupied(o) => Some(o.remove()),
            Entry::Vacant(_) => None,
        }
    }

    /// The entry of `pos`: what is stored there, and the means to change it
    /// without looking the position up again. When the entry is done with,
    /// the index holds at `pos` what the entry left there and is otherwise
    /// as before; it is well formed if what was left fits the index.
    pub fn entry(&mut self, pos: ChunkPos) -> (entry: Entry<'_>)
        requires
            old(self).wf(),
        ensures
            entry.wf(),
            entry.pos() == pos,
            entry.height() == old(self).spec_height(),
            final(self).spec_height() == old(self).spec_height(),
            match entry {
                Entry::Occupied(o) => {
                    &&& old(self)@.contains_key(pos)
                    &&& o.entry.value()@ == old(self)@[pos]
                    &&& final(self)@ == (match o.entry.final_value() {
                        Some(loaded) => old(self)@.insert(pos, loaded@),
                        None => old(self)@.remove(pos),
                    })
                    &&& (match o.entry.final_value() {
                        Some(loaded) => fits_index(loaded, old(self).spec_height()),
                        None => true,
                    }) ==> final(self).wf()
                },
                Entry::Vacant(v) => {
                    &&& !old(self)@.contains_key(pos)
                    &&& final(self)@ == (match v.entry.final_value() {
                        Some(loaded) => old(self)@.insert(pos, loaded@),
                        None => old(self)@,
                    })
                    &&& (match v.entry.final_value() {
                        Some(loaded) => fits_index(loaded, old(self).spec_height()),
                        None => true,
                    }) ==> final(self).wf()
                },
            },
    {
        let key = key_of(pos);
        let height = self.height;
        proof {
            assert forall|other: ChunkPos| spec_key(other) == key implies other == pos by {
                lemma_key_decides(other, pos);
            }
        }
        match fx_map_entry(&mut self.map, key) {
            hash_map::Entry::Occupied(o) => Entry::Occupied(OccupiedEntry { entry: o, pos, height }),
            hash_map::Entry::Vacant(v) => Entry::Vacant(VacantEntry { entry: v, pos, height }),
        }
    }
}

} // verus!
