//! Block states and biomes as the numbers that stand for them on the wire,
//! and what the block-state table of the protocol says of a block state.

use vstd::prelude::*;

verus! {

/// The largest raw id in the block-state table.
pub const MAX_BLOCK_STATE_RAW: u16 = 24134;

/// Whether `raw` is the id of one of the three kinds of air.
pub open spec fn spec_is_air(raw: int) -> bool {
    raw == 0 || raw == 12817 || raw == 12818
}

/// The id of the kind of block entity that goes with the block state `raw`,
/// if that state carries one, as the block-state table has it.
pub uninterp spec fn block_entity_kind_of(raw: u16) -> Option<u32>;

/// Calls `BlockState::max_raw` of `valence_protocol`, which returns the
/// largest id of the table that the crate was generated from.
#[verifier::external_body]
fn table_max_raw() -> (max: u16)
    ensures
        max == MAX_BLOCK_STATE_RAW,
{
    valence_protocol::BlockState::max_raw()
}

/// Calls `BlockState::is_air` of `valence_protocol` on the state with id
/// `raw`. It is true of the default states of air, void air and cave air,
/// which are the states 0, 12817 and 12818, and of no other.
#[verifier::external_body]
fn table_is_air(raw: u16) -> (air: bool)
    requires
        raw <= MAX_BLOCK_STATE_RAW,
    ensures
        air == spec_is_air(raw as int),
{
    match valence_protocol::BlockState::from_raw(raw) {
        Some(state) => state.is_air(),
        None => false,
    }
}

/// Calls `BlockState::block_entity_kind` of `valence_protocol` on the state
/// with id `raw` and hands back the id of the kind. The result depends on
/// `raw` alone: it is read from a table.
#[verifier::external_body]
fn table_block_entity_kind(raw: u16) -> (kind: Option<u32>)
    requires
        raw <= MAX_BLOCK_STATE_RAW,
    ensures
        kind == block_entity_kind_of(raw),
{
    match valence_protocol::BlockState::from_raw(raw) {
        Some(state) => match state.block_entity_kind() {
            Some(kind) => Some(kind.id()),
            None => None,
        },
        None => None,
    }
}

/// The state of a block: an id of the block-state table.
#[derive(Clone, Copy, Debug, PartialEq, Eq, Structural, Hash)]
pub struct BlockState {
    raw: u16,
}

impl BlockState {
    #[verifier::type_invariant]
    spec fn in_table(self) -> bool {
        self.raw <= MAX_BLOCK_STATE_RAW
    }

    /// The raw id of the state.
    pub closed spec fn id(self) -> u16 {
        self.raw
    }

    /// Two states with the same id are the same state.
    pub proof fn lemma_id_decides(self, other: BlockState)
        ensures
            self.id() == other.id() <==> self == other,
    {
    }

    /// The state with id `raw`, if the table has one.
    pub fn from_raw(raw: u16) -> (state: Option<BlockState>)
        ensures
            state is Some <==> raw <= MAX_BLOCK_STATE_RAW,
            state is Some ==> state.unwrap().id() == raw,
    {
        if raw <= table_max_raw() {
            Some(BlockState { raw })
        } else {
            None
        }
    }

    /// The raw id of the state.
    pub fn to_raw(self) -> (raw: u16)
        ensures
            raw == self.id(),
            raw <= MAX_BLOCK_STATE_RAW,
    {
        proof {
            use_type_invariant(&self);
        }
        self.raw
    }

    /// The largest raw id that a state can have.
    pub fn max_raw() -> (max: u16)
        ensures
            max == MAX_BLOCK_STATE_RAW,
    {
        table_max_raw()
    }

    /// Air, the state of a block that was never set.
    pub fn air() -> (state: BlockState)
        ensures
            state.id() == 0,
    {
        BlockState { raw: 0 }
    }

    /// Whether the state is air, void air or cave air.
    pub fn is_air(self) -> (air: bool)
        ensures
            air == spec_is_air(self.id() as int),
    {
        table_is_air(self.to_raw())
    }

    /// The id of the kind of block entity that the state carries, if any.
    pub fn block_entity_kind(self) -> (kind: Option<u32>)
        ensures
            kind == block_entity_kind_of(self.id()),
    {
        table_block_entity_kind(self.to_raw())
    }
}

impl Default for BlockState {
    fn default() -> (state: BlockState)
        ensures
            state.id() == 0,
    {
        BlockState::air()
    }
}

/// A biome: its index in the biome registry.
#[derive(Clone, Copy, Debug, PartialEq, Eq, Structural, Hash)]
pub struct BiomeId {
    index: u32,
}

impl BiomeId {
    /// The index of the biome.
    pub closed spec fn id(self) -> u32 {
        self.index
    }

    /// Two biomes with the same index are the same biome.
    pub proof fn lemma_id_decides(self, other: BiomeId)
        ensures
            self.id() == other.id() <==> self == other,
    {
    }

    /// The biome with the low 32 bits of `idx` as its index.
    pub fn from_index(idx: usize) -> (biome: BiomeId)
        ensures
            biome.id() == idx as u32,
    {
        BiomeId { index: idx as u32 }
    }

    /// The index of the biome.
    pub fn to_index(self) -> (idx: usize)
        ensures
            idx == self.id(),
    {
        self.index as usize
    }
}

impl Default for BiomeId {
    fn default() -> (biome: BiomeId)
        ensures
            biome.id() == 0,
    {
        BiomeId { index: 0 }
    }
}

} // verus!
