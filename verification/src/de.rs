//! Java Edition chunk data, as it is read from region files

use vstd::prelude::*;

verus! {

/// A piece of a generated structure
#[derive(Debug)]
pub struct StructurePiece {
    /// Bounding box as `[minX, minY, minZ, maxX, maxY, maxZ]`
    pub bb: Option<Vec<i32>>,
}

/// The start of a generated structure
#[derive(Debug)]
pub struct StructureStart {
    /// Bounding box as `[minX, minY, minZ, maxX, maxY, maxZ]`
    pub bb: Option<Vec<i32>>,
    /// Structure ID, or `INVALID`
    pub id: Option<String>,
    /// The pieces of the structure
    pub children: Vec<StructurePiece>,
}

/// The generated structures of a chunk
#[derive(Debug)]
pub struct Structures {
    /// Structures starting in the chunk, by their types
    pub starts: Vec<(String, StructureStart)>,
}

/// A block entity
#[derive(Debug)]
pub struct BlockEntity {
    /// Block entity ID
    pub id: String,
}

/// An entry of a section's block palette
#[derive(Debug)]
pub struct BlockStatePaletteEntry {
    /// Block ID
    pub name: String,
}

/// A section of a chunk in the format of 1.18 and later
#[derive(Debug)]
pub enum SectionV1_18Variant {
    /// A section with blocks
    V1_18 {
        /// The block palette
        palette: Vec<BlockStatePaletteEntry>,
    },
    /// A section without blocks
    Empty,
}

/// A section of a chunk in an older format
#[derive(Debug)]
pub enum SectionV0Variant {
    /// A section in the format of 1.13 and later
    V1_13 {
        /// The block palette
        palette: Vec<BlockStatePaletteEntry>,
    },
    /// A section with numeric block IDs
    V0,
    /// A section without blocks
    Empty,
}

/// `Level` element of a chunk in an older format
#[derive(Debug)]
pub struct Level {
    /// Generated structures
    pub structures: Option<Structures>,
    /// Cumulative number of ticks players have spent in the chunk
    pub inhabited_time: Option<i64>,
    /// Sections of the chunk
    pub sections: Vec<SectionV0Variant>,
    /// Block entities of the chunk
    pub tile_entities: Vec<BlockEntity>,
}

/// The part of a chunk that depends on its format
#[derive(Debug)]
pub enum ChunkVariant {
    /// A chunk in the format of 1.18 and later
    V1_18 {
        /// Sections of the chunk
        sections: Vec<SectionV1_18Variant>,
        /// Block entities of the chunk
        block_entities: Vec<BlockEntity>,
    },
    /// A chunk in an older format
    V0 {
        /// `Level` element
        level: Level,
    },
}

/// A chunk
#[derive(Debug)]
pub struct Chunk {
    /// Generated structures (1.18 and later)
    pub structures: Option<Structures>,
    /// Cumulative number of ticks players have spent in the chunk
    pub inhabited_time: Option<i64>,
    /// The part that depends on the format
    pub chunk: ChunkVariant,
}

} // verus!
