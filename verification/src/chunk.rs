//! The blocks, biomes and block entities of one chunk: a column of sections,
//! each sixteen blocks high.

use vstd::prelude::*;
use std::collections::BTreeMap;
use valence_nbt::Compound;
use crate::block::BiomeId;
use crate::block::BlockState;
use crate::block::MAX_BLOCK_STATE_RAW;
use crate::block::spec_is_air;
use crate::paletted::Palette;
use crate::paletted::PalettedContainer;
use crate::bits::bit_width;
use crate::bits::spec_bit_width;
use crate::block::block_entity_kind_of;
use crate::order::lemma_increasing_keys;
use crate::packet::BlockEntityRecord;
use crate::packet::BlockEntityView;
use crate::packet::record_views;
use crate::wire::be_u16_bytes;
use crate::wire::write_u16;
use vstd::std_specs::iter::IteratorSpec;

verus! {

/// The number of blocks in a section: 16 by 16 by 16.
pub const SECTION_BLOCK_COUNT: usize = 4096;

/// The number of biome cells in a section: 4 by 4 by 4.
pub const SECTION_BIOME_COUNT: usize = 64;

/// The most sections a chunk can have, so that its height fits 32 bits.
pub const MAX_SECTION_COUNT: usize = 0x0fff_ffff;

/// The payload of a block entity: a tree of named tags, which this library
/// stores and hands on without looking inside.
#[verifier::external_type_specification]
#[verifier::external_body]
pub struct ExCompound(Compound);

/// How many of `cells` hold a block state that is not air.
pub open spec fn count_non_air(cells: Seq<u32>) -> nat
    decreases cells.len(),
{
    if cells.len() == 0 {
        0
    } else {
        count_non_air(cells.drop_last()) + if spec_is_air(cells.last() as int) {
            0nat
        } else {
            1nat
        }
    }
}

/// Cells that all hold the same state are all air or all not air.
pub proof fn lemma_count_non_air_uniform(len: nat, v: u32)
    ensures
        count_non_air(Seq::new(len, |i: int| v)) == if spec_is_air(v as int) {
            0
        } else {
            len
        },
    decreases len,
{
    if len > 0 {
        lemma_count_non_air_uniform((len - 1) as nat, v);
        assert(Seq::new(len, |i: int| v).drop_last() =~= Seq::new((len - 1) as nat, |i: int| v));
    }
}

/// What one section holds.
pub struct SectionView {
    pub blocks: Palette,
    pub biomes: Palette,
}

impl SectionView {
    /// A section of air in the default biome.
    pub open spec fn empty() -> SectionView {
        SectionView { blocks: Palette::Single(0), biomes: Palette::Single(0) }
    }

    /// Both grids are well formed and every block id is in the block-state
    /// table.
    pub open spec fn wf(self) -> bool {
        &&& self.blocks.wf(SECTION_BLOCK_COUNT as nat)
        &&& self.biomes.wf(SECTION_BIOME_COUNT as nat)
        &&& forall|i: int|
            0 <= i < SECTION_BLOCK_COUNT ==> (#[trigger] self.blocks.cells(
                SECTION_BLOCK_COUNT as nat,
            )[i]) <= MAX_BLOCK_STATE_RAW
    }

    /// The block ids of the section, in the order x, then z, then y.
    pub open spec fn block_cells(self) -> Seq<u32> {
        self.blocks.cells(SECTION_BLOCK_COUNT as nat)
    }

    /// The biome indices of the section, in the order x, then z, then y.
    pub open spec fn biome_cells(self) -> Seq<u32> {
        self.biomes.cells(SECTION_BIOME_COUNT as nat)
    }

    /// The number of blocks of the section that are not air.
    pub open spec fn non_air_count(self) -> nat {
        count_non_air(self.block_cells())
    }

    /// The section with both grids in the smallest form that holds their
    /// cells.
    pub open spec fn shrink_to_fit(self) -> SectionView {
        SectionView {
            blocks: self.blocks.shrink_to_fit(SECTION_BLOCK_COUNT as nat),
            biomes: self.biomes.shrink_to_fit(SECTION_BIOME_COUNT as nat),
        }
    }

    /// Whether the biomes can be written when the registry has
    /// `biome_registry_len` biomes.
    pub open spec fn encodable(self, biome_registry_len: nat) -> bool {
        &&& biome_registry_len >= 1
        &&& self.biomes.encodable(
            SECTION_BIOME_COUNT as nat,
            0,
            3,
            spec_biome_bits(biome_registry_len),
        )
    }

    /// The bytes of the section in the packet: the number of blocks that are
    /// not air as two bytes, the block states, which get a palette of at
    /// least four and at most eight bits, and the biomes, which get a palette
    /// of at most three bits.
    pub open spec fn encoding(self, biome_registry_len: nat) -> Seq<u8> {
        be_u16_bytes(self.non_air_count() as u16) + self.blocks.encoding(
            SECTION_BLOCK_COUNT as nat,
            4,
            8,
            spec_block_bits(),
        ) + self.biomes.encoding(SECTION_BIOME_COUNT as nat, 0, 3, spec_biome_bits(biome_registry_len))
    }
}

/// The width of a block-state id that is written without a palette.
pub open spec fn spec_block_bits() -> nat {
    spec_bit_width(MAX_BLOCK_STATE_RAW as nat)
}

/// The width of a biome index that is written without a palette, when the
/// registry has `biome_registry_len` biomes.
pub open spec fn spec_biome_bits(biome_registry_len: nat) -> nat {
    spec_bit_width((biome_registry_len - 1) as nat)
}

/// The bytes of the sections, from the bottom up.
pub open spec fn sections_encoding(sections: Seq<SectionView>, biome_registry_len: nat) -> Seq<u8>
    decreases sections.len(),
{
    if sections.len() == 0 {
        Seq::empty()
    } else {
        sections_encoding(sections.drop_last(), biome_registry_len) + sections.last().encoding(
            biome_registry_len,
        )
    }
}

/// What a chunk holds: its sections from the bottom up, and the payloads of
/// its block entities by position.
pub struct ChunkView {
    pub sections: Seq<SectionView>,
    pub block_entities: Map<u32, Compound>,
}

/// The place of block `(x, y, z)` in the block grid of its section.
pub open spec fn spec_block_index(x: u32, y: u32, z: u32) -> int {
    x + z * 16 + (y % 16) * 256
}

/// The place of biome cell `(x, y, z)` in the biome grid of its section.
pub open spec fn spec_biome_index(x: u32, y: u32, z: u32) -> int {
    x + z * 4 + (y % 4) * 16
}

/// The key of the block entity at `(x, y, z)`.
pub open spec fn spec_block_entity_key(x: u32, y: u32, z: u32) -> int {
    x + z * 16 + y * 256
}

impl ChunkView {
    /// A chunk of `height / 16` sections of air, without block entities.
    pub open spec fn with_height(height: u32) -> ChunkView {
        ChunkView {
            sections: Seq::new((height / 16) as nat, |i: int| SectionView::empty()),
            block_entities: Map::empty(),
        }
    }

    /// The height in blocks: sixteen for each section.
    pub open spec fn height(self) -> nat {
        self.sections.len() * 16
    }

    /// The sections are well formed, the height fits 32 bits, and every block
    /// entity lies within the height.
    pub open spec fn wf(self) -> bool {
        &&& self.sections.len() <= MAX_SECTION_COUNT
        &&& forall|i: int| 0 <= i < self.sections.len() ==> (#[trigger] self.sections[i]).wf()
        &&& forall|k: u32| #[trigger]
            self.block_entities.contains_key(k) ==> k < self.sections.len() * SECTION_BLOCK_COUNT
    }

    /// Whether `(x, y, z)` names a block of the chunk.
    pub open spec fn has_block(self, x: u32, y: u32, z: u32) -> bool {
        x < 16 && z < 16 && y < self.height()
    }

    /// Whether `(x, y, z)` names a biome cell of the chunk. A biome cell is
    /// four blocks wide each way.
    pub open spec fn has_biome(self, x: u32, y: u32, z: u32) -> bool {
        x < 4 && z < 4 && y < self.sections.len() * 4
    }

    /// The id of the block state at `(x, y, z)`.
    pub open spec fn block_raw(self, x: u32, y: u32, z: u32) -> u32 {
        self.sections[y as int / 16].block_cells()[spec_block_index(x, y, z)]
    }

    /// The index of the biome at `(x, y, z)`.
    pub open spec fn biome_raw(self, x: u32, y: u32, z: u32) -> u32 {
        self.sections[y as int / 4].biome_cells()[spec_biome_index(x, y, z)]
    }

    /// The chunk after the block at `(x, y, z)` is set to the state `raw`.
    pub open spec fn set_block(self, x: u32, y: u32, z: u32, raw: u32) -> ChunkView {
        let sect = self.sections[y as int / 16];
        ChunkView {
            sections: self.sections.update(
                y as int / 16,
                SectionView {
                    blocks: sect.blocks.set(
                        SECTION_BLOCK_COUNT as nat,
                        spec_block_index(x, y, z),
                        raw,
                    ),
                    biomes: sect.biomes,
                },
            ),
            block_entities: self.block_entities,
        }
    }

    /// The chunk after the biome at `(x, y, z)` is set to `raw`.
    pub open spec fn set_biome(self, x: u32, y: u32, z: u32, raw: u32) -> ChunkView {
        let sect = self.sections[y as int / 4];
        ChunkView {
            sections: self.sections.update(
                y as int / 4,
                SectionView {
                    blocks: sect.blocks,
                    biomes: sect.biomes.set(
                        SECTION_BIOME_COUNT as nat,
                        spec_biome_index(x, y, z),
                        raw,
                    ),
                },
            ),
            block_entities: self.block_entities,
        }
    }

    /// The chunk after every block of section `sect_y` is set to `raw`.
    pub open spec fn fill_block_section(self, sect_y: int, raw: u32) -> ChunkView {
        ChunkView {
            sections: self.sections.update(
                sect_y,
                SectionView { blocks: Palette::Single(raw), biomes: self.sections[sect_y].biomes },
            ),
            block_entities: self.block_entities,
        }
    }

    /// The chunk after every biome cell of section `sect_y` is set to `raw`.
    pub open spec fn fill_biome_section(self, sect_y: int, raw: u32) -> ChunkView {
        ChunkView {
            sections: self.sections.update(
                sect_y,
                SectionView { blocks: self.sections[sect_y].blocks, biomes: Palette::Single(raw) },
            ),
            block_entities: self.block_entities,
        }
    }

    /// The chunk after every block of every section is set to `raw`.
    pub open spec fn fill_blocks(self, raw: u32) -> ChunkView {
        ChunkView {
            sections: Seq::new(
                self.sections.len(),
                |i: int| SectionView { blocks: Palette::Single(raw), biomes: self.sections[i].biomes },
            ),
            block_entities: self.block_entities,
        }
    }

    /// The chunk after every biome cell of every section is set to `raw`.
    pub open spec fn fill_biomes(self, raw: u32) -> ChunkView {
        ChunkView {
            sections: Seq::new(
                self.sections.len(),
                |i: int| SectionView { blocks: self.sections[i].blocks, biomes: Palette::Single(raw) },
            ),
            block_entities: self.block_entities,
        }
    }

    /// The chunk after the block entity with key `key` is set to `payload`,
    /// or taken away where `payload` is `None`.
    pub open spec fn set_block_entity(self, key: u32, payload: Option<Compound>) -> ChunkView {
        ChunkView {
            sections: self.sections,
            block_entities: match payload {
                Some(nbt) => self.block_entities.insert(key, nbt),
                None => self.block_entities.remove(key),
            },
        }
    }

    /// The chunk without its block entities.
    pub open spec fn clear_block_entities(self) -> ChunkView {
        ChunkView { sections: self.sections, block_entities: Map::empty() }
    }

    /// Whether every section can be written when the registry has
    /// `biome_registry_len` biomes.
    pub open spec fn encodable(self, biome_registry_len: nat) -> bool {
        forall|i: int|
            0 <= i < self.sections.len() ==> (#[trigger] self.sections[i]).encodable(
                biome_registry_len,
            )
    }

    /// The section data of the packet.
    pub open spec fn blocks_and_biomes(self, biome_registry_len: nat) -> Seq<u8> {
        sections_encoding(self.sections, biome_registry_len)
    }

    /// Whether the height in the world of every block entity that the packet
    /// lists fits 16 bits, when the chunk's lowest block is at height
    /// `min_y`. A payload at a place whose block state carries no block
    /// entity is not listed and may lie at any height.
    pub open spec fn block_entities_fit(self, min_y: int) -> bool {
        forall|k: u32| #[trigger]
            self.block_entities.contains_key(k) && self.block_entity_kind(k) is Some ==> i16::MIN
                <= k / 256 + min_y <= i16::MAX
    }

    /// The kind of block entity that the block at the place of key `key`
    /// carries, if its state carries one.
    pub open spec fn block_entity_kind(self, key: u32) -> Option<u32> {
        block_entity_kind_of(
            self.sections[key as int / 4096].block_cells()[key as int % 4096] as u16,
        )
    }

    /// The block entity with key `key` as the packet lists it.
    pub open spec fn block_entity_record(self, key: u32, min_y: int) -> BlockEntityView {
        BlockEntityView {
            packed_xz: ((key % 16) * 16 + key / 16 % 16) as i8,
            y: (key / 256 + min_y) as i16,
            kind: self.block_entity_kind(key).unwrap() as i32,
            data: self.block_entities[key],
        }
    }

    /// The block entities with keys below `bound`, in the order of their
    /// keys, as the packet lists them. A payload at a place whose block state
    /// carries no block entity is left out.
    pub open spec fn block_entity_records_below(self, bound: nat, min_y: int) -> Seq<BlockEntityView>
        decreases bound,
    {
        if bound == 0 {
            Seq::empty()
        } else {
            let key = (bound - 1) as u32;
            let below = self.block_entity_records_below((bound - 1) as nat, min_y);
            if self.block_entities.contains_key(key) && self.block_entity_kind(key) is Some {
                below.push(self.block_entity_record(key, min_y))
            } else {
                below
            }
        }
    }

    /// All block entities as the packet lists them, in the order of their
    /// keys.
    pub open spec fn block_entity_records(self, min_y: int) -> Seq<BlockEntityView> {
        self.block_entity_records_below(0x1_0000_0000, min_y)
    }

    /// Where no block entity has a key from `from` up to `to`, the list up to
    /// `to` is the list up to `from`.
    pub proof fn lemma_no_records_between(self, from: nat, to: nat, min_y: int)
        requires
            from <= to <= 0x1_0000_0000,
            forall|k: u32| from <= k < to ==> !self.block_entities.contains_key(k),
        ensures
            self.block_entity_records_below(to, min_y) == self.block_entity_records_below(
                from,
                min_y,
            ),
        decreases to - from,
    {
        if from < to {
            self.lemma_no_records_between(from, (to - 1) as nat, min_y);
            assert(!self.block_entities.contains_key((to - 1) as u32));
        }
    }

    /// The chunk with every grid of every section in the smallest form that
    /// holds its cells.
    pub open spec fn shrink_to_fit(self) -> ChunkView {
        ChunkView {
            sections: Seq::new(self.sections.len(), |i: int| self.sections[i].shrink_to_fit()),
            block_entities: self.block_entities,
        }
    }

    /// The chunk resized to `height / 16` sections. A shorter chunk keeps its
    /// lowest sections and the block entities in them; a taller one gets
    /// sections of air on top.
    pub open spec fn set_height(self, height: u32) -> ChunkView {
        let count = (height / 16) as int;
        if count < self.sections.len() {
            ChunkView {
                sections: self.sections.take(count),
                block_entities: self.block_entities.restrict(
                    Set::new(|k: u32| k < count * SECTION_BLOCK_COUNT),
                ),
            }
        } else {
            ChunkView {
                sections: self.sections + Seq::new(
                    (count - self.sections.len()) as nat,
                    |i: int| SectionView::empty(),
                ),
                block_entities: self.block_entities,
            }
        }
    }
}

/// One section of a chunk.
pub struct Section {
    block_states: PalettedContainer<SECTION_BLOCK_COUNT>,
    biomes: PalettedContainer<SECTION_BIOME_COUNT>,
}

impl View for Section {
    type V = SectionView;

    closed spec fn view(&self) -> SectionView {
        SectionView { blocks: self.block_states@, biomes: self.biomes@ }
    }
}

impl Section {
    /// Both grids are well formed and every block id is in the block-state
    /// table.
    pub closed spec fn wf(&self) -> bool {
        &&& self.block_states.wf()
        &&& self.biomes.wf()
        &&& self@.wf()
    }

    /// A section of air in the default biome.
    pub fn new() -> (sect: Section)
        ensures
            sect.wf(),
            sect@ == SectionView::empty(),
    {
        Section { block_states: PalettedContainer::new(), biomes: PalettedContainer::new() }
    }

    /// The id of the block state in cell `idx`.
    pub fn block(&self, idx: usize) -> (raw: u32)
        requires
            self.wf(),
            idx < SECTION_BLOCK_COUNT,
        ensures
            raw == self@.block_cells()[idx as int],
            raw <= MAX_BLOCK_STATE_RAW,
    {
        self.block_states.get(idx)
    }

    /// Sets the block state in cell `idx` and returns the id that was there.
    pub fn set_block(&mut self, idx: usize, raw: u32) -> (old_raw: u32)
        requires
            old(self).wf(),
            idx < SECTION_BLOCK_COUNT,
            raw <= MAX_BLOCK_STATE_RAW,
        ensures
            final(self).wf(),
            final(self)@ == (SectionView {
                blocks: old(self)@.blocks.set(SECTION_BLOCK_COUNT as nat, idx as int, raw),
                biomes: old(self)@.biomes,
            }),
            old_raw == old(self)@.block_cells()[idx as int],
            old_raw <= MAX_BLOCK_STATE_RAW,
    {
        self.block_states.set(idx, raw)
    }

    /// Sets every block of the section to the state `raw`.
    pub fn fill_blocks(&mut self, raw: u32)
        requires
            old(self).wf(),
            raw <= MAX_BLOCK_STATE_RAW,
        ensures
            final(self).wf(),
            final(self)@ == (SectionView { blocks: Palette::Single(raw), biomes: old(self)@.biomes }),
    {
        self.block_states.fill(raw);
    }

    /// The index of the biome in cell `idx`.
    pub fn biome(&self, idx: usize) -> (raw: u32)
        requires
            self.wf(),
            idx < SECTION_BIOME_COUNT,
        ensures
            raw == self@.biome_cells()[idx as int],
    {
        self.biomes.get(idx)
    }

    /// Sets the biome in cell `idx` and returns the index that was there.
    pub fn set_biome(&mut self, idx: usize, raw: u32) -> (old_raw: u32)
        requires
            old(self).wf(),
            idx < SECTION_BIOME_COUNT,
        ensures
            final(self).wf(),
            final(self)@ == (SectionView {
                blocks: old(self)@.blocks,
                biomes: old(self)@.biomes.set(SECTION_BIOME_COUNT as nat, idx as int, raw),
            }),
            old_raw == old(self)@.biome_cells()[idx as int],
    {
        self.biomes.set(idx, raw)
    }

    /// Sets every biome cell of the section to `raw`.
    pub fn fill_biomes(&mut self, raw: u32)
        requires
            old(self).wf(),
        ensures
            final(self).wf(),
            final(self)@ == (SectionView { blocks: old(self)@.blocks, biomes: Palette::Single(raw) }),
    {
        self.biomes.fill(raw);
    }

    /// Brings both grids into the smallest form that holds their cells.
    pub fn shrink_to_fit(&mut self)
        requires
            old(self).wf(),
        ensures
            final(self).wf(),
            final(self)@ == old(self)@.shrink_to_fit(),
            final(self)@.block_cells() == old(self)@.block_cells(),
            final(self)@.biome_cells() == old(self)@.biome_cells(),
    {
        self.block_states.shrink_to_fit();
        self.biomes.shrink_to_fit();
        proof {
            self.block_states.lemma_wf();
            self.biomes.lemma_wf();
        }
    }

    /// Whether the section can be written when the registry has
    /// `biome_registry_len` biomes.
    pub fn can_encode(&self, biome_registry_len: usize) -> (ok: bool)
        requires
            self.wf(),
        ensures
            ok == self@.encodable(biome_registry_len as nat),
    {
        if biome_registry_len < 1 {
            return false;
        }
        self.biomes.can_encode(0, 3, bit_width(biome_registry_len - 1))
    }

    /// Appends the bytes of the section in the packet.
    pub fn encode(&self, out: &mut Vec<u8>, biome_registry_len: usize)
        requires
            self.wf(),
            self@.encodable(biome_registry_len as nat),
        ensures
            final(out)@ == old(out)@ + self@.encoding(biome_registry_len as nat),
    {
        let count = self.count_non_air_blocks();
        write_u16(out, count);
        let block_bits = bit_width(BlockState::max_raw() as usize);
        proof {
            crate::bits::lemma_below_pow2_of_bit_width(MAX_BLOCK_STATE_RAW as nat);
            reveal_with_fuel(spec_bit_width, 2);
            assert(block_bits >= 1);
        }
        self.block_states.encode_mc_format(out, 4, 8, block_bits);
        let biome_bits = bit_width(biome_registry_len - 1);
        self.biomes.encode_mc_format(out, 0, 3, biome_bits);
        assert(out@ =~= old(out)@ + self@.encoding(biome_registry_len as nat));
    }

    /// A copy of the section.
    pub fn duplicate(&self) -> (copy: Section)
        requires
            self.wf(),
        ensures
            copy.wf(),
            copy@ == self@,
    {
        Section { block_states: self.block_states.duplicate(), biomes: self.biomes.duplicate() }
    }

    /// The number of blocks of the section that are not air.
    pub fn count_non_air_blocks(&self) -> (count: u16)
        requires
            self.wf(),
        ensures
            count == self@.non_air_count(),
    {
        proof {
            self.block_states.lemma_wf();
        }
        match self.block_states.as_single() {
            Some(v) => {
                proof {
                    lemma_count_non_air_uniform(SECTION_BLOCK_COUNT as nat, v);
                }
                assert(v == self@.block_cells()[0]);
                let state = BlockState::from_raw(v as u16);
                if state.unwrap().is_air() {
                    0
                } else {
                    SECTION_BLOCK_COUNT as u16
                }
            },
            None => {
                let mut count: u16 = 0;
                let mut i: usize = 0;
                assert(self@.block_cells().take(0) =~= Seq::<u32>::empty());
                while i < SECTION_BLOCK_COUNT
                    invariant
                        self.wf(),
                        i <= SECTION_BLOCK_COUNT,
                        count <= i,
                        count == count_non_air(self@.block_cells().take(i as int)),
                    decreases SECTION_BLOCK_COUNT - i,
                {
                    let v = self.block_states.get(i);
                    assert(v == self@.block_cells()[i as int]);
                    assert(self@.block_cells().take(i + 1).drop_last() =~= self@.block_cells().take(
                        i as int,
                    ));
                    let state = BlockState::from_raw(v as u16);
                    if !state.unwrap().is_air() {
                        count = count + 1;
                    }
                    i = i + 1;
                }
                assert(self@.block_cells().take(SECTION_BLOCK_COUNT as int) =~= self@.block_cells());
                count
            },
        }
    }
}

/// Calls `BTreeMap::get_mut`, which hands out the payload stored under `key`,
/// if there is one, for the caller to change in place. The keys of the map
/// stay as they are.
#[verifier::external_body]
fn payload_mut(entities: &mut BTreeMap<u32, Compound>, key: u32) -> (payload: Option<&mut Compound>)
    ensures
        match payload {
            Some(nbt) => old(entities)@.contains_key(key) && *nbt == old(entities)@[key]
                && final(entities)@ == old(entities)@.insert(key, *final(nbt)),
            None => !old(entities)@.contains_key(key) && final(entities)@ == old(entities)@,
        },
        final(entities)@.dom() == old(entities)@.dom(),
{
    entities.get_mut(&key)
}

/// Calls `BTreeMap::split_off`, which leaves in the map the entries whose
/// keys are below `key` and returns the others.
#[verifier::external_body]
fn split_off_from(entities: &mut BTreeMap<u32, Compound>, key: u32) -> (upper: BTreeMap<
    u32,
    Compound,
>)
    ensures
        final(entities)@ == old(entities)@.restrict(Set::new(|k: u32| k < key)),
        upper@ == old(entities)@.restrict(Set::new(|k: u32| k >= key)),
{
    entities.split_off(&key)
}

/// The blocks, biomes and block entities of one chunk.
pub struct Chunk {
    sections: Vec<Section>,
    block_entities: BTreeMap<u32, Compound>,
}

impl View for Chunk {
    type V = ChunkView;

    closed spec fn view(&self) -> ChunkView {
        ChunkView {
            sections: self.sections@.map_values(|s: Section| s@),
            block_entities: self.block_entities@,
        }
    }
}

impl Chunk {
    /// The content is well formed, and so is every section.
    pub closed spec fn wf(&self) -> bool {
        &&& self@.wf()
        &&& forall|i: int| 0 <= i < self.sections@.len() ==> (#[trigger] self.sections@[i]).wf()
    }

    /// A well-formed chunk has a well-formed content.
    pub proof fn lemma_wf(&self)
        requires
            self.wf(),
        ensures
            self@.wf(),
    {
    }

    /// A chunk of height zero.
    pub fn new() -> (chunk: Chunk)
        ensures
            chunk.wf(),
            chunk@ == ChunkView::with_height(0),
    {
        let chunk = Chunk { sections: Vec::new(), block_entities: BTreeMap::new() };
        assert(chunk@.sections =~= ChunkView::with_height(0).sections);
        chunk
    }

    /// A chunk of `height / 16` sections of air, without block entities.
    pub fn with_height(height: u32) -> (chunk: Chunk)
        ensures
            chunk.wf(),
            chunk@ == ChunkView::with_height(height),
    {
        let mut chunk = Chunk::new();
        chunk.set_height(height);
        assert(chunk@.sections =~= ChunkView::with_height(height).sections);
        chunk
    }

    /// The height in blocks.
    pub fn height(&self) -> (height: u32)
        requires
            self.wf(),
        ensures
            height == self@.height(),
    {
        (self.sections.len() * 16) as u32
    }

    /// Resizes the chunk to `height / 16` sections. A shorter chunk keeps its
    /// lowest sections and the block entities in them; a taller one gets
    /// sections of air on top.
    pub fn set_height(&mut self, height: u32)
        requires
            old(self).wf(),
        ensures
            final(self).wf(),
            final(self)@ == old(self)@.set_height(height),
    {
        let new_count: usize = (height / 16) as usize;
        let old_count: usize = self.sections.len();
        if new_count < old_count {
            self.sections.truncate(new_count);
            // A block entity has a 32-bit key, so above this many sections
            // there is none to take away.
            if new_count < 0x10_0000 {
                let cutoff: u32 = (new_count * SECTION_BLOCK_COUNT) as u32;
                let _ = split_off_from(&mut self.block_entities, cutoff);
            }
            assert(self@.block_entities =~= old(self)@.set_height(height).block_entities);
            assert(self@.sections =~= old(self)@.set_height(height).sections);
        } else {
            let mut i: usize = old_count;
            while i < new_count
                invariant
                    old_count <= i <= new_count,
                    new_count <= MAX_SECTION_COUNT,
                    self.sections@.len() == i,
                    self.block_entities == old(self).block_entities,
                    old(self).wf(),
                    forall|j: int| 0 <= j < old_count ==> self.sections@[j] == old(self).sections@[j],
                    forall|j: int|
                        old_count <= j < i ==> (#[trigger] self.sections@[j]).wf()
                            && self.sections@[j]@ == SectionView::empty(),
                decreases new_count - i,
            {
                self.sections.push(Section::new());
                i = i + 1;
            }
            assert(self@.sections =~= old(self)@.set_height(height).sections);
        }
    }

    /// Whether the chunk has no block entity at all.
    pub fn has_no_block_entities(&self) -> (none: bool)
        ensures
            none == self@.block_entities.dom().is_empty(),
    {
        self.block_entities.is_empty()
    }

    /// The number of sections.
    pub fn section_count(&self) -> (count: usize)
        ensures
            count == self@.sections.len(),
    {
        self.sections.len()
    }

    /// The state of the block at `(x, y, z)`.
    pub fn block_state(&self, x: u32, y: u32, z: u32) -> (block: BlockState)
        requires
            self.wf(),
            self@.has_block(x, y, z),
        ensures
            block.id() == self@.block_raw(x, y, z),
    {
        let idx: usize = (x + z * 16 + y % 16 * 256) as usize;
        let raw = self.sections[(y / 16) as usize].block(idx);
        BlockState::from_raw(raw as u16).unwrap()
    }

    /// Sets the block at `(x, y, z)` and returns the state that it had.
    pub fn set_block_state(&mut self, x: u32, y: u32, z: u32, block: BlockState) -> (old_block:
        BlockState)
        requires
            old(self).wf(),
            old(self)@.has_block(x, y, z),
        ensures
            final(self).wf(),
            final(self)@ == old(self)@.set_block(x, y, z, block.id() as u32),
            old_block.id() == old(self)@.block_raw(x, y, z),
    {
        let idx: usize = (x + z * 16 + y % 16 * 256) as usize;
        let raw: u32 = block.to_raw() as u32;
        let old_raw = self.sections[(y / 16) as usize].set_block(idx, raw);
        assert(self@.sections =~= old(self)@.set_block(x, y, z, raw).sections);
        BlockState::from_raw(old_raw as u16).unwrap()
    }

    /// Sets every block of section `sect_y` to `block`.
    pub fn fill_block_state_section(&mut self, sect_y: u32, block: BlockState)
        requires
            old(self).wf(),
            sect_y < old(self)@.sections.len(),
        ensures
            final(self).wf(),
            final(self)@ == old(self)@.fill_block_section(sect_y as int, block.id() as u32),
    {
        let raw: u32 = block.to_raw() as u32;
        self.sections[sect_y as usize].fill_blocks(raw);
        assert(self@.sections =~= old(self)@.fill_block_section(sect_y as int, raw).sections);
    }

    /// Sets every block of the chunk to `block`.
    pub fn fill_block_states(&mut self, block: BlockState)
        requires
            old(self).wf(),
        ensures
            final(self).wf(),
            final(self)@ == old(self)@.fill_blocks(block.id() as u32),
    {
        let raw: u32 = block.to_raw() as u32;
        let count = self.sections.len();
        let mut i: usize = 0;
        while i < count
            invariant
                i <= count,
                count == self.sections@.len(),
                count == old(self).sections@.len(),
                raw <= MAX_BLOCK_STATE_RAW,
                self.block_entities == old(self).block_entities,
                old(self).wf(),
                forall|j: int| i <= j < count ==> self.sections@[j] == old(self).sections@[j],
                forall|j: int|
                    0 <= j < i ==> (#[trigger] self.sections@[j]).wf() && self.sections@[j]@ == (
                    SectionView { blocks: Palette::Single(raw), biomes: old(self).sections@[j]@.biomes }),
            decreases count - i,
        {
            self.sections[i].fill_blocks(raw);
            i = i + 1;
        }
        assert(self@.sections =~= old(self)@.fill_blocks(raw).sections);
    }

    /// The index of the biome at `(x, y, z)`, in biome cells.
    pub fn biome(&self, x: u32, y: u32, z: u32) -> (biome: BiomeId)
        requires
            self.wf(),
            self@.has_biome(x, y, z),
        ensures
            biome.id() == self@.biome_raw(x, y, z),
    {
        let idx: usize = (x + z * 4 + y % 4 * 16) as usize;
        let raw = self.sections[(y / 4) as usize].biome(idx);
        BiomeId::from_index(raw as usize)
    }

    /// Sets the biome at `(x, y, z)` and returns the biome that was there.
    pub fn set_biome(&mut self, x: u32, y: u32, z: u32, biome: BiomeId) -> (old_biome: BiomeId)
        requires
            old(self).wf(),
            old(self)@.has_biome(x, y, z),
        ensures
            final(self).wf(),
            final(self)@ == old(self)@.set_biome(x, y, z, biome.id()),
            old_biome.id() == old(self)@.biome_raw(x, y, z),
    {
        let idx: usize = (x + z * 4 + y % 4 * 16) as usize;
        let raw: u32 = biome.to_index() as u32;
        let old_raw = self.sections[(y / 4) as usize].set_biome(idx, raw);
        assert(self@.sections =~= old(self)@.set_biome(x, y, z, raw).sections);
        BiomeId::from_index(old_raw as usize)
    }

    /// Sets every biome cell of section `sect_y` to `biome`.
    pub fn fill_biome_section(&mut self, sect_y: u32, biome: BiomeId)
        requires
            old(self).wf(),
            sect_y < old(self)@.sections.len(),
        ensures
            final(self).wf(),
            final(self)@ == old(self)@.fill_biome_section(sect_y as int, biome.id()),
    {
        let raw: u32 = biome.to_index() as u32;
        self.sections[sect_y as usize].fill_biomes(raw);
        assert(self@.sections =~= old(self)@.fill_biome_section(sect_y as int, raw).sections);
    }

    /// Sets every biome cell of the chunk to `biome`.
    pub fn fill_biomes(&mut self, biome: BiomeId)
        requires
            old(self).wf(),
        ensures
            final(self).wf(),
            final(self)@ == old(self)@.fill_biomes(biome.id()),
    {
        let raw: u32 = biome.to_index() as u32;
        let count = self.sections.len();
        let mut i: usize = 0;
        while i < count
            invariant
                i <= count,
                count == self.sections@.len(),
                count == old(self).sections@.len(),
                self.block_entities == old(self).block_entities,
                old(self).wf(),
                forall|j: int| i <= j < count ==> self.sections@[j] == old(self).sections@[j],
                forall|j: int|
                    0 <= j < i ==> (#[trigger] self.sections@[j]).wf() && self.sections@[j]@ == (
                    SectionView { blocks: old(self).sections@[j]@.blocks, biomes: Palette::Single(raw) }),
            decreases count - i,
        {
            self.sections[i].fill_biomes(raw);
            i = i + 1;
        }
        assert(self@.sections =~= old(self)@.fill_biomes(raw).sections);
    }

    /// The payload of the block entity at `(x, y, z)`, if there is one.
    pub fn block_entity(&self, x: u32, y: u32, z: u32) -> (payload: Option<&Compound>)
        requires
            self.wf(),
            self@.has_block(x, y, z),
            y < 0x100_0000,
        ensures
            payload == (if self@.block_entities.contains_key(
                spec_block_entity_key(x, y, z) as u32,
            ) {
                Some(&self@.block_entities[spec_block_entity_key(x, y, z) as u32])
            } else {
                None
            }),
    {
        let key: u32 = x + z * 16 + y * 256;
        self.block_entities.get(&key)
    }

    /// The payload of the block entity at `(x, y, z)`, if there is one, for
    /// the caller to change in place.
    pub fn block_entity_mut(&mut self, x: u32, y: u32, z: u32) -> (payload: Option<&mut Compound>)
        requires
            old(self).wf(),
            old(self)@.has_block(x, y, z),
            y < 0x100_0000,
        ensures
            final(self)@.sections == old(self)@.sections,
            final(self)@.block_entities.dom() =~= old(self)@.block_entities.dom(),
            final(self).wf(),
            match payload {
                Some(nbt) => {
                    &&& old(self)@.block_entities.contains_key(spec_block_entity_key(x, y, z) as u32)
                    &&& *nbt == old(self)@.block_entities[spec_block_entity_key(x, y, z) as u32]
                    &&& final(self)@ == old(self)@.set_block_entity(
                        spec_block_entity_key(x, y, z) as u32,
                        Some(*final(nbt)),
                    )
                },
                None => {
                    &&& !old(self)@.block_entities.contains_key(spec_block_entity_key(x, y, z) as u32)
                    &&& final(self)@ == old(self)@
                },
            },
    {
        let key: u32 = x + z * 16 + y * 256;
        payload_mut(&mut self.block_entities, key)
    }

    /// Sets the payload of the block entity at `(x, y, z)`, or takes the block
    /// entity away where `payload` is `None`. Returns the payload that was
    /// there.
    pub fn set_block_entity(&mut self, x: u32, y: u32, z: u32, payload: Option<Compound>) -> (old_payload:
        Option<Compound>)
        requires
            old(self).wf(),
            old(self)@.has_block(x, y, z),
            y < 0x100_0000,
        ensures
            final(self).wf(),
            final(self)@ == old(self)@.set_block_entity(spec_block_entity_key(x, y, z) as u32, payload),
            old_payload == old(self)@.block_entities.get(spec_block_entity_key(x, y, z) as u32),
    {
        let key: u32 = x + z * 16 + y * 256;
        match payload {
            Some(nbt) => self.block_entities.insert(key, nbt),
            None => self.block_entities.remove(&key),
        }
    }

    /// Takes every block entity away.
    pub fn clear_block_entities(&mut self)
        requires
            old(self).wf(),
        ensures
            final(self).wf(),
            final(self)@ == old(self)@.clear_block_entities(),
    {
        self.block_entities.clear();
    }

    /// Whether every section can be written when the registry has
    /// `biome_registry_len` biomes.
    pub fn can_encode(&self, biome_registry_len: usize) -> (ok: bool)
        requires
            self.wf(),
        ensures
            ok == self@.encodable(biome_registry_len as nat),
    {
        let mut i: usize = 0;
        while i < self.sections.len()
            invariant
                self.wf(),
                i <= self.sections@.len(),
                forall|j: int|
                    0 <= j < i ==> (#[trigger] self@.sections[j]).encodable(biome_registry_len as nat),
            decreases self.sections@.len() - i,
        {
            if !self.sections[i].can_encode(biome_registry_len) {
                assert(!self@.sections[i as int].encodable(biome_registry_len as nat));
                return false;
            }
            i = i + 1;
        }
        true
    }

    /// Whether the height in the world of every block entity that the packet
    /// lists fits 16 bits, when the chunk's lowest block is at height
    /// `min_y`.
    pub fn block_entities_fit(&self, min_y: i32) -> (ok: bool)
        requires
            self.wf(),
        ensures
            ok == self@.block_entities_fit(min_y as int),
    {
        let probe = self.block_entities.iter();
        let ghost items = probe.remaining();
        proof {
            broadcast use vstd::std_specs::btree::group_btree_axioms;

            assert forall|k: u32| #[trigger] self@.block_entities.contains_key(k) implies exists|
                i: int,
            |
                0 <= i < items.len() && *(#[trigger] items[i]).0 == k by {
                let pair = (&k, &self@.block_entities[k]);
                assert(items.contains(pair));
                let i = choose|i: int| 0 <= i < items.len() && items[i] == pair;
                assert(*items[i].0 == k);
            }
        }
        let mut ok = true;
        for kv in it: self.block_entities.iter()
            invariant
                self.wf(),
                it.seq() == items,
                forall|i: int|
                    0 <= i < items.len() ==> self@.block_entities.contains_key(
                        *(#[trigger] items[i]).0,
                    ),
                forall|k: u32| #[trigger]
                    self@.block_entities.contains_key(k) ==> exists|i: int|
                        0 <= i < items.len() && *(#[trigger] items[i]).0 == k,
                ok ==> forall|i: int|
                    0 <= i < it.index() && self@.block_entity_kind(*(#[trigger] items[i]).0) is Some
                        ==> i16::MIN <= *items[i].0 / 256 + min_y <= i16::MAX,
                !ok ==> !self@.block_entities_fit(min_y as int),
        {
            let key: u32 = *kv.0;
            assert(self@.block_entities.contains_key(key));
            let raw = self.sections[(key / 4096) as usize].block((key % 4096) as usize);
            let state = BlockState::from_raw(raw as u16).unwrap();
            if state.block_entity_kind().is_some() {
                let y: i64 = (key / 256) as i64 + min_y as i64;
                if y < -32768 || y > 32767 {
                    ok = false;
                }
            }
        }
        ok
    }

    /// The section data of the packet: the bytes of every section, from the
    /// bottom up.
    pub fn encode_sections(&self, biome_registry_len: usize) -> (bytes: Vec<u8>)
        requires
            self.wf(),
            self@.encodable(biome_registry_len as nat),
        ensures
            bytes@ == self@.blocks_and_biomes(biome_registry_len as nat),
    {
        let mut bytes: Vec<u8> = Vec::new();
        let mut i: usize = 0;
        assert(self@.sections.take(0) =~= Seq::<SectionView>::empty());
        while i < self.sections.len()
            invariant
                self.wf(),
                self@.encodable(biome_registry_len as nat),
                i <= self.sections@.len(),
                bytes@ == sections_encoding(self@.sections.take(i as int), biome_registry_len as nat),
            decreases self.sections@.len() - i,
        {
            assert(self@.sections[i as int].encodable(biome_registry_len as nat));
            assert(self@.sections.take(i + 1).drop_last() =~= self@.sections.take(i as int));
            self.sections[i].encode(&mut bytes, biome_registry_len);
            i = i + 1;
        }
        assert(self@.sections.take(i as int) =~= self@.sections);
        bytes
    }

    /// The block entities as the packet lists them, in the order of their
    /// keys, for a chunk whose lowest block is at height `min_y` in the
    /// world. A payload at a place whose block state carries no block entity
    /// is left out.
    pub fn block_entity_records(&self, min_y: i32) -> (records: Vec<BlockEntityRecord<'_>>)
        requires
            self.wf(),
            self@.block_entities_fit(min_y as int),
        ensures
            record_views(records@) == self@.block_entity_records(min_y as int),
    {
        let mut records: Vec<BlockEntityRecord<'_>> = Vec::new();
        proof {
            crate::order::lemma_sorted_map_takes_u32_keys();
        }
        let probe = self.block_entities.iter();
        let ghost items = probe.remaining();
        let ghost done: int = 0;
        let ghost bound: nat = 0;
        proof {
            broadcast use vstd::std_specs::btree::group_btree_axioms;

            let keys = items.map_values(|kv: (&u32, &Compound)| *kv.0);
            lemma_increasing_keys(keys);
            assert forall|i: int, j: int| 0 <= i < j < items.len() implies *items[i].0
                < *items[j].0 by {
                assert(keys[i] < keys[j]);
            }
            assert forall|k: u32| #[trigger] self@.block_entities.contains_key(k) implies exists|
                i: int,
            |
                0 <= i < items.len() && *(#[trigger] items[i]).0 == k by {
                let pair = (&k, &self@.block_entities[k]);
                assert(items.contains(pair));
                let i = choose|i: int| 0 <= i < items.len() && items[i] == pair;
                assert(*items[i].0 == k);
            }
            assert(record_views(records@) =~= self@.block_entity_records_below(0, min_y as int));
        }
        for kv in it: self.block_entities.iter()
            invariant
                self.wf(),
                self@.block_entities_fit(min_y as int),
                it.seq() == items,
                done == it.index(),
                bound <= 0x1_0000_0000,
                done > 0 ==> bound == *items[done - 1].0 + 1,
                done == 0 ==> bound == 0,
                forall|i: int, j: int| 0 <= i < j < items.len() ==> *items[i].0 < *items[j].0,
                forall|i: int|
                    0 <= i < items.len() ==> self@.block_entities.contains_key(
                        *(#[trigger] items[i]).0,
                    ) && self@.block_entities[*items[i].0] == *items[i].1,
                forall|k: u32| #[trigger]
                    self@.block_entities.contains_key(k) ==> exists|i: int|
                        0 <= i < items.len() && *(#[trigger] items[i]).0 == k,
                record_views(records@) == self@.block_entity_records_below(bound, min_y as int),
        {
            let key: u32 = *kv.0;
            let nbt: &Compound = kv.1;
            assert(kv == items[done]);
            proof {
                assert forall|k: u32| bound <= k < key implies !self@.block_entities.contains_key(
                    k,
                ) by {
                    if self@.block_entities.contains_key(k) {
                        let i = choose|i: int|
                            0 <= i < items.len() && *(#[trigger] items[i]).0 == k;
                        if i < done {
                            if i < done - 1 {
                                assert(*items[i].0 < *items[done - 1].0);
                            }
                        } else if i > done {
                            assert(*items[done].0 < *items[i].0);
                        }
                    }
                }
                if done > 0 {
                    assert(*items[done - 1].0 < *items[done].0);
                }
                self@.lemma_no_records_between(bound, key as nat, min_y as int);
            }
            let x: u32 = key % 16;
            let z: u32 = key / 16 % 16;
            let y: u32 = key / 256;
            let raw = self.sections[(y / 16) as usize].block((key % 4096) as usize);
            let state = BlockState::from_raw(raw as u16).unwrap();
            let ghost before = record_views(records@);
            match state.block_entity_kind() {
                Some(kind) => {
                    let record = BlockEntityRecord {
                        packed_xz: #[verifier::truncate] ((x * 16 + z) as i8),
                        y: (y as i64 + min_y as i64) as i16,
                        kind: #[verifier::truncate] (kind as i32),
                        data: nbt,
                    };
                    assert(record@ == self@.block_entity_record(key, min_y as int));
                    records.push(record);
                    assert(record_views(records@) =~= before.push(record@));
                },
                None => {},
            }
            proof {
                bound = (key + 1) as nat;
                done = done + 1;
            }
        }
        proof {
            assert(done == items.len());
            assert forall|k: u32| bound <= k < 0x1_0000_0000 implies !self@.block_entities.contains_key(
                k,
            ) by {
                if self@.block_entities.contains_key(k) {
                    let i = choose|i: int| 0 <= i < items.len() && *(#[trigger] items[i]).0 == k;
                    if i < done - 1 {
                        assert(*items[i].0 < *items[done - 1].0);
                    }
                }
            }
            self@.lemma_no_records_between(bound, 0x1_0000_0000, min_y as int);
        }
        records
    }

    /// Brings every grid of every section into the smallest form that holds
    /// its cells. Blocks, biomes and block entities stay as they are.
    pub fn shrink_to_fit(&mut self)
        requires
            old(self).wf(),
        ensures
            final(self).wf(),
            final(self)@ == old(self)@.shrink_to_fit(),
    {
        let count = self.sections.len();
        let mut i: usize = 0;
        while i < count
            invariant
                i <= count,
                count == self.sections@.len(),
                count == old(self).sections@.len(),
                self.block_entities == old(self).block_entities,
                old(self).wf(),
                forall|j: int| i <= j < count ==> self.sections@[j] == old(self).sections@[j],
                forall|j: int|
                    0 <= j < i ==> (#[trigger] self.sections@[j]).wf() && self.sections@[j]@
                        == old(self).sections@[j]@.shrink_to_fit(),
            decreases count - i,
        {
            self.sections[i].shrink_to_fit();
            i = i + 1;
        }
        assert(self@.sections =~= old(self)@.shrink_to_fit().sections);
    }

    /// A copy of the chunk.
    pub fn duplicate(&self) -> (copy: Chunk)
        requires
            self.wf(),
        ensures
            copy.wf(),
            copy@ == self@,
    {
        let mut sections: Vec<Section> = Vec::new();
        let mut i: usize = 0;
        while i < self.sections.len()
            invariant
                self.wf(),
                i <= self.sections@.len(),
                sections@.len() == i,
                forall|j: int|
                    0 <= j < i ==> (#[trigger] sections@[j]).wf() && sections@[j]@
                        == self.sections@[j]@,
            decreases self.sections@.len() - i,
        {
            sections.push(self.sections[i].duplicate());
            i = i + 1;
        }
        let copy = Chunk { sections, block_entities: self.block_entities.clone() };
        assert(copy@.sections =~= self@.sections);
        copy
    }
}

} // verus!
