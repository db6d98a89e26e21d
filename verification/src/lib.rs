//! Chunks that a server keeps loaded, the index that finds them by position,
//! and the encoding of the packet that shows a chunk to a client.

pub mod bits;
pub mod wire;
pub mod paletted;
pub mod block;
pub mod order;
pub mod packet;
pub mod chunk;
pub mod pos;
pub mod loaded;
pub mod index;
pub mod laws;

pub use block::BiomeId;
pub use block::BlockState;
pub use chunk::Chunk;
pub use index::ChunkIndex;
pub use index::Entry;
pub use index::OccupiedEntry;
pub use index::VacantEntry;
pub use loaded::ChunkLayerInfo;
pub use loaded::CompressionThreshold;
pub use loaded::LoadedChunk;
pub use pos::ChunkPos;
