//! Block data of a chunk, as the layers read it

use crate::resource::{BlockType, UnknownColors};
use crate::types::{SectionBlockCoords, SectionY};
use vstd::prelude::*;

verus! {

/// An entry of a section's block palette
#[derive(Debug)]
pub struct PaletteEntry {
    /// The kind of block, if it is known
    pub block_type: Option<BlockType>,
    /// The name of the block (without namespace), in formats that store names
    pub name: Option<String>,
    /// The colors in which the block can be rendered if it is not known
    pub unknown_colors: UnknownColors,
}

/// A section of a chunk: 16 blocks along each axis
#[derive(Debug)]
pub struct ChunkSection {
    /// Y coordinate of the section
    pub y: SectionY,
    /// The different blocks of the section
    pub palette: Vec<PaletteEntry>,
    /// The palette index of each block
    pub blocks: Vec<u16>,
    /// The biome of each block
    pub biomes: Vec<u32>,
    /// The light of each block; blocks behind the end are dark
    pub light: Vec<u8>,
}

impl ChunkSection {
    /// The block at the given coordinates, if the section has one
    pub open spec fn spec_block_at(&self, coords: SectionBlockCoords) -> Option<PaletteEntry> {
        let offset = coords.spec_offset();
        if offset < self.blocks@.len() && self.blocks@[offset] < self.palette@.len() {
            Some(self.palette@[self.blocks@[offset] as int])
        } else {
            None
        }
    }

    /// Returns the block at the given coordinates, if the section has one
    pub fn block_at(&self, coords: SectionBlockCoords) -> (r: Option<&PaletteEntry>)
        requires
            coords.wf(),
        ensures
            match self.spec_block_at(coords) {
                Some(entry) => r == Some(&entry),
                None => r is None,
            },
    {
        let offset: usize = coords.offset();
        if offset < self.blocks.len() {
            let index: usize = self.blocks[offset] as usize;
            if index < self.palette.len() {
                return Some(&self.palette[index]);
            }
        }
        None
    }

    /// The biome at the given coordinates, if the section has one
    pub open spec fn spec_biome_at(&self, coords: SectionBlockCoords) -> Option<u32> {
        if coords.spec_offset() < self.biomes@.len() {
            Some(self.biomes@[coords.spec_offset()])
        } else {
            None
        }
    }

    /// Returns the biome at the given coordinates, if the section has one
    pub fn biome_at(&self, coords: SectionBlockCoords) -> (r: Option<u32>)
        requires
            coords.wf(),
        ensures
            r == self.spec_biome_at(coords),
    {
        let offset: usize = coords.offset();
        if offset < self.biomes.len() {
            Some(self.biomes[offset])
        } else {
            None
        }
    }

    /// The block light at the given coordinates
    pub open spec fn spec_light_at(&self, coords: SectionBlockCoords) -> u8 {
        if coords.spec_offset() < self.light@.len() {
            self.light@[coords.spec_offset()]
        } else {
            0
        }
    }

    /// Returns the block light at the given coordinates
    pub fn block_light_at(&self, coords: SectionBlockCoords) -> (r: u8)
        requires
            coords.wf(),
        ensures
            r == self.spec_light_at(coords),
    {
        let offset: usize = coords.offset();
        if offset < self.light.len() {
            self.light[offset]
        } else {
            0
        }
    }
}

/// The block data of a chunk
#[derive(Debug)]
pub struct Chunk {
    /// The sections, from the bottom to the top
    pub sections: Vec<ChunkSection>,
}

impl Chunk {
    /// The sections are ordered from the bottom to the top
    pub open spec fn ascending(self) -> bool {
        forall|i: int, j: int|
            0 <= i < j < self.sections@.len() ==> (#[trigger] self.sections@[i]).y.0 < (
            #[trigger] self.sections@[j]).y.0
    }

    /// Returns whether the chunk has no sections
    pub fn is_empty(&self) -> (r: bool)
        ensures
            r == (self.sections@.len() == 0),
    {
        self.sections.len() == 0
    }
}

/// The block at given coordinates is the palette entry whose index stands at the place of the
/// block, and there is none where the section ends before; biomes and light stand at the same
/// place
pub proof fn section_read(section: ChunkSection, coords: SectionBlockCoords, at: int)
    requires
        coords.wf(),
        at == coords.xz.x + 16 * coords.xz.z + 256 * coords.y.0,
    ensures
        at >= section.blocks@.len() ==> section.spec_block_at(coords) is None,
        at < section.blocks@.len() && section.blocks@[at] >= section.palette@.len()
            ==> section.spec_block_at(coords) is None,
        at < section.blocks@.len() && section.blocks@[at] < section.palette@.len()
            ==> section.spec_block_at(coords) == Some(section.palette@[section.blocks@[at] as int]),
        at < section.biomes@.len() ==> section.spec_biome_at(coords) == Some(section.biomes@[at]),
        at >= section.biomes@.len() ==> section.spec_biome_at(coords) is None,
        at < section.light@.len() ==> section.spec_light_at(coords) == section.light@[at],
        at >= section.light@.len() ==> section.spec_light_at(coords) == 0,
{
}

} // verus!
