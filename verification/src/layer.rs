//! Functions to search the "top" layer of a chunk

use crate::chunk::{Chunk, ChunkSection, PaletteEntry};
use crate::indexed;
use crate::resource::{BlockColor, BlockFlag, UnknownBlockMode};
use crate::types::{BlockY, LayerBlockArray, LayerBlockCoords, SectionBlockCoords, SectionY};
use indexmap::IndexSet;
use vstd::prelude::*;

verus! {

/// Reasons why a layer cannot be determined
#[derive(Debug, Clone, Copy, PartialEq, Eq, Structural)]
pub enum LayerError {
    /// A section does not have one of its blocks
    BlockMissing,
    /// A section does not have the biome of a block
    BiomeMissing,
    /// A block height is out of bounds
    HeightOutOfBounds,
}

/// Height (Y coordinate) of a block
#[derive(Debug, Clone, Copy, PartialEq, Eq, Structural)]
pub struct BlockHeight(pub i32);

/// The height of a block, if it fits
pub open spec fn height_of(section: SectionY, block: BlockY) -> Option<BlockHeight> {
    if i32::MIN <= section.0 * 16 && section.0 * 16 + block.0 <= i32::MAX {
        Some(BlockHeight((section.0 * 16 + block.0) as i32))
    } else {
        None
    }
}

impl BlockHeight {
    /// Constructs a new [BlockHeight] from section and block Y indices
    ///
    /// Returns an error if the resulting coordindate does not fit into
    /// an [i32].
    pub fn new(section: SectionY, block: BlockY) -> (r: Result<Self, LayerError>)
        ensures
            match height_of(section, block) {
                Some(height) => r == Ok::<Self, LayerError>(height),
                None => r == Err::<Self, LayerError>(LayerError::HeightOutOfBounds),
            },
    {
        let height: i64 = section.0 as i64 * 16 + block.0 as i64;
        if section.0 as i64 * 16 < i32::MIN as i64 || height > i32::MAX as i64 {
            Err(LayerError::HeightOutOfBounds)
        } else {
            Ok(BlockHeight(height as i32))
        }
    }
}

/// Array optionally storing a [BlockColor] for each coordinate of a chunk
pub type BlockArray = LayerBlockArray<Option<BlockColor>>;

/// Array optionally storing a biome index for each coordinate of a chunk
///
/// The entries refer to a biome list generated with the top layer data.
/// Indices are stored incremented by 1.
pub type BiomeArray = LayerBlockArray<Option<u16>>;

/// Array optionally storing a block-name index for each coordinate of a chunk
///
/// The entries refer to a block-name list generated with the top layer data.
/// Indices are stored incremented by 1.
pub type NameArray = LayerBlockArray<Option<u16>>;

/// Array storing a block light value for each coordinate for a chunk
pub type BlockLightArray = LayerBlockArray<u8>;

/// Array optionally storing a depth value for each coordinate for a chunk
pub type DepthArray = LayerBlockArray<Option<BlockHeight>>;

/// LayerData entries for a single coordinate pair
#[derive(Debug, Clone, Copy, PartialEq, Eq)]
pub struct LayerEntry {
    /// The block type of the entry
    pub block: Option<BlockColor>,
    /// The biome type of the entry
    pub biome: Option<u16>,
    /// The block-name index of the entry
    pub name: Option<u16>,
    /// The block light of the entry
    pub block_light: u8,
    /// The depth value of the entry
    pub depth: Option<BlockHeight>,
}

/// An entry that has not been filled yet
pub open spec fn empty_entry() -> LayerEntry {
    LayerEntry { block: None, biome: None, name: None, block_light: 0, depth: None }
}

/// Why a scan of a chunk ended before its last block
pub enum Stop {
    /// The layer cannot be determined
    Failed(LayerError),
    /// The biome list has become too long for its indices
    BiomeOverflow,
}

/// The color in which a block is visible; transparent blocks have none
pub open spec fn shown(block: PaletteEntry, unknown: UnknownBlockMode) -> Option<BlockColor> {
    let color = match block.block_type {
        Some(block_type) => Some(block_type.block_color),
        None => BlockColor::spec_unknown(block.unknown_colors, unknown),
    };
    match color {
        Some(c) => if c.has(BlockFlag::Opaque) {
            Some(c)
        } else {
            None
        },
        None => None,
    }
}

/// An index in the form in which arrays hold it: incremented by 1
pub open spec fn stored_index(index: int) -> Option<u16> {
    if index < u16::MAX {
        Some((index + 1) as u16)
    } else {
        None
    }
}

/// An entry and the lists it refers to, after a block has been looked at
pub struct Filled {
    /// The entry
    pub entry: LayerEntry,
    /// The biome list
    pub biomes: Seq<u32>,
    /// The block name list
    pub names: Seq<Seq<char>>,
    /// Whether the entry is filled including its depth, or why the scan ends
    pub result: Result<bool, Stop>,
}

/// An entry whose block, biome and name are filled in from the topmost visible block
pub open spec fn with_block(
    entry: LayerEntry,
    biomes: Seq<u32>,
    names: Seq<Seq<char>>,
    capture_names: bool,
    block: PaletteEntry,
    color: BlockColor,
    biome: Option<u32>,
) -> Filled {
    match biome {
        None => Filled {
            entry: LayerEntry { block: Some(color), ..entry },
            biomes,
            names,
            result: Err(Stop::Failed(LayerError::BiomeMissing)),
        },
        Some(b) => {
            let new_names = match block.name {
                Some(name) if capture_names => indexed::with_item(names, name@),
                _ => names,
            };
            Filled {
                entry: LayerEntry {
                    block: Some(color),
                    biome: stored_index(indexed::place(biomes, b)),
                    name: match block.name {
                        Some(name) if capture_names => stored_index(indexed::place(names, name@)),
                        _ => entry.name,
                    },
                    ..entry
                },
                biomes: indexed::with_item(biomes, b),
                names: new_names,
                result: if indexed::place(biomes, b) < u16::MAX {
                    Ok(false)
                } else {
                    Err(Stop::BiomeOverflow)
                },
            }
        },
    }
}

/// An entry after a block has been looked at
///
/// The topmost visible block gives the entry its block, its biome and its name. The
/// topmost visible block that is not water gives it its depth. The last transparent
/// block above the topmost visible block gives it its light.
#[verifier::opaque]
pub open spec fn filled(
    entry: LayerEntry,
    biomes: Seq<u32>,
    names: Seq<Seq<char>>,
    capture_names: bool,
    unknown: UnknownBlockMode,
    section: ChunkSection,
    coords: SectionBlockCoords,
) -> Filled {
    match section.spec_block_at(coords) {
        None => Filled {
            entry,
            biomes,
            names,
            result: Err(Stop::Failed(LayerError::BlockMissing)),
        },
        Some(block) => match shown(block, unknown) {
            None => Filled {
                entry: if entry.block is None {
                    LayerEntry { block_light: section.spec_light_at(coords), ..entry }
                } else {
                    entry
                },
                biomes,
                names,
                result: Ok(false),
            },
            Some(color) => {
                let f = if entry.block is None {
                    with_block(
                        entry,
                        biomes,
                        names,
                        capture_names,
                        block,
                        color,
                        section.spec_biome_at(coords),
                    )
                } else {
                    Filled { entry, biomes, names, result: Ok(false) }
                };
                if f.result is Err || color.has(BlockFlag::Water) {
                    f
                } else {
                    match height_of(section.y, coords.y) {
                        None => Filled {
                            result: Err(Stop::Failed(LayerError::HeightOutOfBounds)),
                            ..f
                        },
                        Some(height) => Filled {
                            entry: LayerEntry { depth: Some(height), ..f.entry },
                            result: Ok(true),
                            ..f
                        },
                    }
                }
            },
        },
    }
}

impl LayerEntry {
    /// Returns true if the entry has not been filled yet (no opaque block has been encountered)
    ///
    /// The depth value is filled separately when a non-water block is encountered after the block
    /// type has already been filled.
    pub fn is_empty(&self) -> (r: bool)
        ensures
            r == (self.block is None),
    {
        self.block.is_none()
    }

    /// Returns true if the entry has been filled including its depth (an opaque non-water block
    /// has been encountered)
    pub fn done(&self) -> (r: bool)
        ensures
            r == (self.depth is Some),
    {
        self.depth.is_some()
    }

    /// Fills in the LayerEntry
    ///
    /// Checks whether the passed coordinates point at an opaque or non-water block and
    /// fills in the entry accordingly. Returns true when the block has been filled including its
    /// depth.
    pub fn fill(
        &mut self,
        biome_list: &mut IndexSet<u32>,
        name_list: &mut IndexSet<String>,
        capture_names: bool,
        unknown: UnknownBlockMode,
        section: &ChunkSection,
        coords: SectionBlockCoords,
    ) -> (r: Result<bool, LayerError>)
        requires
            coords.wf(),
            filled(
                *old(self),
                indexed::biome_ids(*old(biome_list)),
                indexed::block_names(*old(name_list)),
                capture_names,
                unknown,
                *section,
                coords,
            ).result != Err::<bool, Stop>(Stop::BiomeOverflow),
        ensures
            ({
                let f = filled(
                    *old(self),
                    indexed::biome_ids(*old(biome_list)),
                    indexed::block_names(*old(name_list)),
                    capture_names,
                    unknown,
                    *section,
                    coords,
                );
                &&& *final(self) == f.entry
                &&& indexed::biome_ids(*final(biome_list)) == f.biomes
                &&& indexed::block_names(*final(name_list)) == f.names
                &&& match f.result {
                    Ok(done) => r == Ok::<bool, LayerError>(done),
                    Err(Stop::Failed(e)) => r == Err::<bool, LayerError>(e),
                    Err(Stop::BiomeOverflow) => false,
                }
            }),
    {
        proof {
            reveal(filled);
        }
        let block = match section.block_at(coords) {
            Some(block) => block,
            None => return Err(LayerError::BlockMissing),
        };
        let color = match block.block_type {
            Some(block_type) => Some(block_type.block_color),
            // Unrecognized (for example modded) block: render it according to
            // the configured mode instead of always treating it as transparent.
            None => BlockColor::unknown(block.unknown_colors, unknown),
        };
        let visible = match color {
            Some(color) => if color.is(BlockFlag::Opaque) {
                Some(color)
            } else {
                None
            },
            None => None,
        };
        let color = match visible {
            Some(color) => color,
            None => {
                if self.is_empty() {
                    self.block_light = section.block_light_at(coords);
                }
                return Ok(false);
            },
        };
        if self.is_empty() {
            self.block = Some(color);
            let biome: u32 = match section.biome_at(coords) {
                Some(biome) => biome,
                None => return Err(LayerError::BiomeMissing),
            };
            let (biome_index, _) = indexed::insert_biome(biome_list, biome);
            self.biome = Some((biome_index + 1) as u16);
            if capture_names {
                if let Some(name) = &block.name {
                    let (name_index, _) = indexed::insert_name(name_list, name.clone());
                    // Skip the name (texture falls back to the flat color) if a region
                    // exceeds the number of distinct names that fit.
                    self.name = if name_index < u16::MAX as usize {
                        Some((name_index + 1) as u16)
                    } else {
                        None
                    };
                }
            }
        }
        if color.is(BlockFlag::Water) {
            return Ok(false);
        }
        let height = match BlockHeight::new(section.y, coords.y) {
            Ok(height) => height,
            Err(e) => return Err(e),
        };
        self.depth = Some(height);
        Ok(true)
    }
}

/// Top layer data
///
/// A LayerData stores block type, biome, block light and depth data for
/// each coordinate of a chunk.
#[derive(Debug)]
pub struct LayerData {
    /// Block type data
    pub blocks: BlockArray,
    /// Biome data
    pub biomes: BiomeArray,
    /// Block-name index data (for the textured layer)
    pub names: NameArray,
    /// Block light data
    pub block_light: BlockLightArray,
    /// Depth data
    pub depths: DepthArray,
}

impl LayerData {
    /// The data has an entry for each coordinate pair
    pub open spec fn wf(&self) -> bool {
        &&& self.blocks.wf()
        &&& self.biomes.wf()
        &&& self.names.wf()
        &&& self.block_light.wf()
        &&& self.depths.wf()
    }

    /// The entry at a position
    pub open spec fn entry_at(&self, i: int) -> LayerEntry {
        LayerEntry {
            block: self.blocks@[i],
            biome: self.biomes@[i],
            name: self.names@[i],
            block_light: self.block_light@[i],
            depth: self.depths@[i],
        }
    }

    /// The entries of all positions
    pub open spec fn entries(&self) -> Seq<LayerEntry> {
        Seq::new(256, |i: int| self.entry_at(i))
    }

    /// Creates a LayerData without any filled entry
    pub fn empty() -> (r: Self)
        ensures
            r.wf(),
            r.entries() == Seq::new(256, |i: int| empty_entry()),
    {
        let r = LayerData {
            blocks: LayerBlockArray::filled(None),
            biomes: LayerBlockArray::filled(None),
            names: LayerBlockArray::filled(None),
            block_light: LayerBlockArray::filled(0u8),
            depths: LayerBlockArray::filled(None),
        };
        assert(r.entries() =~= Seq::new(256, |i: int| empty_entry()));
        r
    }

    /// Returns the [LayerEntry] at a given coordinate pair
    pub fn entry(&self, coords: LayerBlockCoords) -> (r: LayerEntry)
        requires
            self.wf(),
            coords.wf(),
        ensures
            r == self.entries()[coords.spec_index_of()],
    {
        LayerEntry {
            block: self.blocks.at(coords),
            biome: self.biomes.at(coords),
            name: self.names.at(coords),
            block_light: self.block_light.at(coords),
            depth: self.depths.at(coords),
        }
    }

    /// Replaces the [LayerEntry] at a given coordinate pair
    pub fn set_entry(&mut self, coords: LayerBlockCoords, entry: LayerEntry)
        requires
            old(self).wf(),
            coords.wf(),
        ensures
            final(self).wf(),
            final(self).entries() == old(self).entries().update(coords.spec_index_of(), entry),
    {
        self.blocks.put(coords, entry.block);
        self.biomes.put(coords, entry.biome);
        self.names.put(coords, entry.name);
        self.block_light.put(coords, entry.block_light);
        self.depths.put(coords, entry.depth);
        assert(self.entries() =~= old(self).entries().update(coords.spec_index_of(), entry));
    }
}

/// The section of the block that is looked at in step `k` of a scan
///
/// A scan goes from the top to the bottom, and through all columns at each height.
pub open spec fn section_in_step(chunk: Chunk, k: int) -> ChunkSection {
    chunk.sections@[chunk.sections@.len() - 1 - k / 4096]
}

/// The coordinates of the block that is looked at in step `k` of a scan
pub open spec fn coords_in_step(k: int) -> SectionBlockCoords {
    SectionBlockCoords {
        xz: LayerBlockCoords { x: (k % 16) as u8, z: (k % 256 / 16) as u8 },
        y: BlockY((15 - k / 256 % 16) as u8),
    }
}

/// The number of steps of a scan
pub open spec fn step_count(chunk: Chunk) -> int {
    4096int * chunk.sections@.len()
}

/// The position of a step in its section gives the coordinates of its block
#[verifier::spinoff_prover]
pub proof fn step_position(chunk: Chunk, i: int, p: int)
    requires
        0 <= i < chunk.sections@.len(),
        0 <= p < 4096,
    ensures
        section_in_step(chunk, 4096 * i + p) == chunk.sections@[chunk.sections@.len() - 1 - i],
        coords_in_step(4096 * i + p) == (SectionBlockCoords {
            xz: LayerBlockCoords { x: (p % 16) as u8, z: (p % 256 / 16) as u8 },
            y: BlockY((15 - p / 256) as u8),
        }),
        coords_in_step(4096 * i + p).wf(),
        coords_in_step(4096 * i + p).xz.spec_index_of() == (4096 * i + p) % 256,
        4096 * i + p < step_count(chunk),
{
    let k = 4096 * i + p;
    assert(k / 4096 == i);
    assert(k % 16 == p % 16);
    assert(k % 256 == p % 256);
    let row = p / 256;
    assert(0 <= row < 16);
    assert(k / 256 == 16 * i + row);
    assert((16 * i + row) % 16 == row);
    assert(p % 256 == 16 * (p % 256 / 16) + p % 16);
}

/// The state of a scan for the top layer
pub struct TopScan {
    /// The entries of all columns
    pub entries: Seq<LayerEntry>,
    /// The biome list
    pub biomes: Seq<u32>,
    /// The block name list
    pub names: Seq<Seq<char>>,
    /// Why the scan has ended, if it has
    pub stop: Option<Stop>,
}

/// What a scan for the top layer starts from
pub struct TopInput {
    /// The chunk
    pub chunk: Chunk,
    /// The biome list
    pub biomes: Seq<u32>,
    /// The block name list
    pub names: Seq<Seq<char>>,
    /// Whether block names are captured
    pub capture_names: bool,
    /// How unknown blocks are shown
    pub unknown: UnknownBlockMode,
}

/// The state of a scan for the top layer after a step
pub open spec fn top_step(input: TopInput, state: TopScan, k: int) -> TopScan {
    let c = k % 256;
    if state.stop is Some || state.entries[c].depth is Some {
        state
    } else {
        let f = filled(
            state.entries[c],
            state.biomes,
            state.names,
            input.capture_names,
            input.unknown,
            section_in_step(input.chunk, k),
            coords_in_step(k),
        );
        TopScan {
            entries: state.entries.update(c, f.entry),
            biomes: f.biomes,
            names: f.names,
            stop: match f.result {
                Ok(_) => None,
                Err(s) => Some(s),
            },
        }
    }
}

/// The state of a scan for the top layer after the first `k` steps
pub open spec fn top_scan(input: TopInput, k: int) -> TopScan
    decreases k,
{
    if k <= 0 {
        TopScan {
            entries: Seq::new(256, |i: int| empty_entry()),
            biomes: input.biomes,
            names: input.names,
            stop: None,
        }
    } else {
        top_step(input, top_scan(input, k - 1), k - 1)
    }
}

/// The result of a scan for the top layer
pub open spec fn top_result(input: TopInput) -> TopScan {
    top_scan(input, step_count(input.chunk))
}

/// A scan for the top layer keeps an entry for each column
pub proof fn top_scan_len(input: TopInput, k: int)
    ensures
        top_scan(input, k).entries.len() == 256,
    decreases k,
{
    if k > 0 {
        top_scan_len(input, k - 1);
    }
}

/// A scan for the top layer that has ended does not go on
pub proof fn top_scan_stopped(input: TopInput, k: int, n: int)
    requires
        0 <= k <= n,
        top_scan(input, k).stop is Some,
    ensures
        top_scan(input, n) == top_scan(input, k),
    decreases n - k,
{
    if k < n {
        top_scan_stopped(input, k, n - 1);
    }
}

/// What a scan of a chunk returns, if it stopped early as given or else found the given
/// entries
pub open spec fn gives_layer(
    r: Result<Option<LayerData>, LayerError>,
    chunk: Chunk,
    stop: Option<Stop>,
    entries: Seq<LayerEntry>,
) -> bool {
    match stop {
        Some(Stop::Failed(e)) => r == Err::<Option<LayerData>, LayerError>(e),
        Some(Stop::BiomeOverflow) => false,
        None => if chunk.sections@.len() == 0 {
            r == Ok::<Option<LayerData>, LayerError>(None)
        } else {
            &&& r matches Ok(Some(data))
            &&& data.wf()
            &&& data.entries() == entries
        },
    }
}

/// Fills in a [LayerData] with the information of the chunk's top
/// block layer
///
/// For each (X, Z) coordinate pair, the topmost opaque block is
/// determined as the block that should be visible on the rendered
/// map. For water blocks, the height of the first non-water block
/// is additionally filled in as the water depth (the block height is
/// used as depth otherwise).
pub fn top_layer(
    biome_list: &mut IndexSet<u32>,
    name_list: &mut IndexSet<String>,
    capture_names: bool,
    unknown: UnknownBlockMode,
    chunk: &Chunk,
) -> (r: Result<Option<LayerData>, LayerError>)
    requires
        top_result(
            TopInput {
                chunk: *chunk,
                biomes: indexed::biome_ids(*old(biome_list)),
                names: indexed::block_names(*old(name_list)),
                capture_names,
                unknown,
            },
        ).stop != Some(Stop::BiomeOverflow),
    ensures
        ({
            let result = top_result(
                TopInput {
                    chunk: *chunk,
                    biomes: indexed::biome_ids(*old(biome_list)),
                    names: indexed::block_names(*old(name_list)),
                    capture_names,
                    unknown,
                },
            );
            &&& indexed::biome_ids(*final(biome_list)) == result.biomes
            &&& indexed::block_names(*final(name_list)) == result.names
            &&& gives_layer(r, *chunk, result.stop, result.entries)
        }),
{
    let ghost input = TopInput {
        chunk: *chunk,
        biomes: indexed::biome_ids(*biome_list),
        names: indexed::block_names(*name_list),
        capture_names,
        unknown,
    };
    if chunk.is_empty() {
        return Ok(None);
    }
    let mut ret = LayerData::empty();
    let count: usize = chunk.sections.len();
    let mut i: usize = 0;
    while i < count
        invariant
            count == chunk.sections.len(),
            i <= count,
            input.chunk == *chunk,
            input.capture_names == capture_names,
            input.unknown == unknown,
            input.biomes == indexed::biome_ids(*old(biome_list)),
            input.names == indexed::block_names(*old(name_list)),
            top_result(input).stop != Some(Stop::BiomeOverflow),
            ret.wf(),
            top_scan(input, 4096 * i).stop is None,
            top_scan(input, 4096 * i).entries == ret.entries(),
            top_scan(input, 4096 * i).biomes == indexed::biome_ids(*biome_list),
            top_scan(input, 4096 * i).names == indexed::block_names(*name_list),
        decreases count - i,
    {
        let section = &chunk.sections[count - 1 - i];
        let mut p: usize = 0;
        while p < 4096
            invariant
                count == chunk.sections.len(),
                i < count,
                p <= 4096,
                *section == chunk.sections@[count - 1 - i],
                input.chunk == *chunk,
                input.capture_names == capture_names,
                input.unknown == unknown,
                input.biomes == indexed::biome_ids(*old(biome_list)),
                input.names == indexed::block_names(*old(name_list)),
                top_result(input).stop != Some(Stop::BiomeOverflow),
                ret.wf(),
                top_scan(input, 4096 * i + p).stop is None,
                top_scan(input, 4096 * i + p).entries == ret.entries(),
                top_scan(input, 4096 * i + p).biomes == indexed::biome_ids(*biome_list),
                top_scan(input, 4096 * i + p).names == indexed::block_names(*name_list),
            decreases 4096 - p,
        {
            let ghost k = 4096 * i + p;
            let xz = LayerBlockCoords { x: (p % 16) as u8, z: (p % 256 / 16) as u8 };
            let y = BlockY((15 - p / 256) as u8);
            let coords = SectionBlockCoords { xz, y };
            assert(top_scan(input, k + 1) == top_step(input, top_scan(input, k), k));
            proof {
                step_position(*chunk, i as int, p as int);
                if top_scan(input, k + 1).stop is Some {
                    top_scan_stopped(input, k + 1, step_count(*chunk));
                }
            }
            let mut entry = ret.entry(xz);
            if !entry.done() {
                match entry.fill(biome_list, name_list, capture_names, unknown, section, coords) {
                    Ok(_) => {},
                    Err(e) => return Err(e),
                }
                ret.set_entry(xz, entry);
            }
            p = p + 1;
        }
        i = i + 1;
    }
    Ok(Some(ret))
}

/// The color in which the block at position `j` of column `c` is visible
///
/// Positions count from the top.
pub open spec fn shown_in_column(
    chunk: Chunk,
    unknown: UnknownBlockMode,
    c: int,
    j: int,
) -> Option<BlockColor> {
    let k = 256 * j + c;
    match section_in_step(chunk, k).spec_block_at(coords_in_step(k)) {
        Some(block) => shown(block, unknown),
        None => None,
    }
}

/// The block at position `j` of column `c` is visible and not water
pub open spec fn solid_in_column(
    chunk: Chunk,
    unknown: UnknownBlockMode,
    c: int,
    j: int,
) -> bool {
    match shown_in_column(chunk, unknown, c, j) {
        Some(color) => !color.has(BlockFlag::Water),
        None => false,
    }
}

/// The topmost visible block among the first `m` of column `c`, or `m`
pub open spec fn topmost_shown(chunk: Chunk, unknown: UnknownBlockMode, c: int, m: int) -> int
    decreases m,
{
    if m <= 0 {
        0
    } else {
        let t = topmost_shown(chunk, unknown, c, m - 1);
        if t < m - 1 || shown_in_column(chunk, unknown, c, m - 1) is Some {
            t
        } else {
            m
        }
    }
}

/// The topmost visible block that is not water among the first `m` of column `c`, or `m`
pub open spec fn topmost_solid(chunk: Chunk, unknown: UnknownBlockMode, c: int, m: int) -> int
    decreases m,
{
    if m <= 0 {
        0
    } else {
        let t = topmost_solid(chunk, unknown, c, m - 1);
        if t < m - 1 || solid_in_column(chunk, unknown, c, m - 1) {
            t
        } else {
            m
        }
    }
}

/// [topmost_shown] finds the topmost visible block: it is visible, and none above it is
pub proof fn topmost_shown_least(chunk: Chunk, unknown: UnknownBlockMode, c: int, m: int)
    requires
        0 <= m,
    ensures
        0 <= topmost_shown(chunk, unknown, c, m) <= m,
        topmost_shown(chunk, unknown, c, m) < m ==> shown_in_column(
            chunk,
            unknown,
            c,
            topmost_shown(chunk, unknown, c, m),
        ) is Some,
        forall|j: int|
            0 <= j < topmost_shown(chunk, unknown, c, m) ==> #[trigger] shown_in_column(
                chunk,
                unknown,
                c,
                j,
            ) is None,
    decreases m,
{
    if m > 0 {
        topmost_shown_least(chunk, unknown, c, m - 1);
    }
}

/// [topmost_solid] finds the topmost visible block that is not water
pub proof fn topmost_solid_least(chunk: Chunk, unknown: UnknownBlockMode, c: int, m: int)
    requires
        0 <= m,
    ensures
        0 <= topmost_solid(chunk, unknown, c, m) <= m,
        topmost_solid(chunk, unknown, c, m) < m ==> solid_in_column(
            chunk,
            unknown,
            c,
            topmost_solid(chunk, unknown, c, m),
        ),
        forall|j: int|
            0 <= j < topmost_solid(chunk, unknown, c, m) ==> !#[trigger] solid_in_column(
                chunk,
                unknown,
                c,
                j,
            ),
    decreases m,
{
    if m > 0 {
        topmost_solid_least(chunk, unknown, c, m - 1);
    }
}

/// What an entry holds once the first `m` blocks of column `c` have been looked at
pub open spec fn shows_column(
    input: TopInput,
    entry: LayerEntry,
    biomes: Seq<u32>,
    names: Seq<Seq<char>>,
    c: int,
    m: int,
) -> bool {
    let top = topmost_shown(input.chunk, input.unknown, c, m);
    let solid = topmost_solid(input.chunk, input.unknown, c, m);
    let above = 256 * (top - 1) + c;
    // The topmost visible block is the block of the entry, and its biome and name are
    // those of the entry
    &&& if top < m {
        let k = 256 * top + c;
        let section = section_in_step(input.chunk, k);
        &&& entry.block == shown_in_column(input.chunk, input.unknown, c, top)
        &&& entry.biome matches Some(b) && 1 <= b <= biomes.len() && Some(biomes[b - 1])
            == section.spec_biome_at(coords_in_step(k))
        &&& entry.name matches Some(n) ==> {
            &&& input.capture_names
            &&& 1 <= n <= names.len()
            &&& section.spec_block_at(coords_in_step(k)) matches Some(block)
            &&& block.name matches Some(name) && name@ == names[n - 1]
        }
        &&& match section.spec_block_at(coords_in_step(k)) {
            Some(block) => block.name is Some && input.capture_names && names.len() < u16::MAX
                ==> entry.name is Some,
            None => true,
        }
    } else {
        entry.block is None && entry.biome is None && entry.name is None
    }
    // The light is that of the block above the topmost visible block
    &&& entry.block_light == (if top == 0 {
        0
    } else {
        section_in_step(input.chunk, above).spec_light_at(coords_in_step(above))
    })
    // The depth is the height of the topmost visible block that is not water
    &&& entry.depth == (if solid < m {
        let k = 256 * solid + c;
        height_of(section_in_step(input.chunk, k).y, coords_in_step(k).y)
    } else {
        None
    })
    &&& solid < m ==> entry.depth is Some
    &&& top <= solid
}

/// The number of blocks of column `c` that are looked at in the first `k` steps
pub open spec fn seen_in_column(k: int, c: int) -> int {
    (k + 255 - c) / 256
}

proof fn entry_shows_column(input: TopInput, k: int)
    requires
        0 <= k < step_count(input.chunk),
        top_scan(input, k + 1).stop is None,
        top_scan(input, k).entries.len() == 256,
        shows_column(
            input,
            top_scan(input, k).entries[k % 256],
            top_scan(input, k).biomes,
            top_scan(input, k).names,
            k % 256,
            k / 256,
        ),
    ensures
        shows_column(
            input,
            top_scan(input, k + 1).entries[k % 256],
            top_scan(input, k + 1).biomes,
            top_scan(input, k + 1).names,
            k % 256,
            k / 256 + 1,
        ),
{
    reveal(filled);
    let c = k % 256;
    let m = k / 256;
    let before = top_scan(input, k);
    let entry = before.entries[c];
    assert(256 * m + c == k);
    assert(256 * ((m + 1) - 1) + c == k);
    assert(top_scan(input, k + 1) == top_step(input, before, k));
    topmost_shown_least(input.chunk, input.unknown, c, m);
    topmost_solid_least(input.chunk, input.unknown, c, m);
    let section = section_in_step(input.chunk, k);
    let coords = coords_in_step(k);
    if entry.depth is None {
        if let Some(block) = section.spec_block_at(coords) {
            if let Some(b) = section.spec_biome_at(coords) {
                indexed::placed(before.biomes, b);
            }
            if let Some(name) = block.name {
                indexed::placed(before.names, name@);
            }
        }
    }
}

/// A step of a scan adds to the lists, and at most one biome
pub proof fn lists_grow(input: TopInput, k: int)
    requires
        0 <= k,
    ensures
        top_scan(input, k).biomes.len() <= top_scan(input, k + 1).biomes.len(),
        top_scan(input, k).names.len() <= top_scan(input, k + 1).names.len(),
        forall|i: int|
            0 <= i < top_scan(input, k).biomes.len() ==> #[trigger] top_scan(
                input,
                k + 1,
            ).biomes[i] == top_scan(input, k).biomes[i],
        forall|i: int|
            0 <= i < top_scan(input, k).names.len() ==> #[trigger] top_scan(input, k + 1).names[i]
                == top_scan(input, k).names[i],
        top_scan(input, k + 1).biomes.len() <= top_scan(input, k).biomes.len() + 1,
{
    reveal(filled);
    let before = top_scan(input, k);
    assert(top_scan(input, k + 1) == top_step(input, before, k));
    let section = section_in_step(input.chunk, k);
    let coords = coords_in_step(k);
    if let Some(block) = section.spec_block_at(coords) {
        if let Some(b) = section.spec_biome_at(coords) {
            indexed::placed(before.biomes, b);
        }
        if let Some(name) = block.name {
            indexed::placed(before.names, name@);
        }
    }
}

proof fn seen_steps(k: int, c: int)
    requires
        0 < k,
        0 <= c < 256,
    ensures
        c == (k - 1) % 256 ==> seen_in_column(k - 1, c) == (k - 1) / 256 && seen_in_column(k, c)
            == (k - 1) / 256 + 1,
        c != (k - 1) % 256 ==> seen_in_column(k, c) == seen_in_column(k - 1, c),
        seen_in_column(0, c) == 0,
        0 <= seen_in_column(k, c),
{
}

proof fn column_kept(input: TopInput, k: int, entry: LayerEntry, c: int, m: int)
    requires
        0 <= k,
        0 <= m,
        shows_column(input, entry, top_scan(input, k).biomes, top_scan(input, k).names, c, m),
    ensures
        shows_column(
            input,
            entry,
            top_scan(input, k + 1).biomes,
            top_scan(input, k + 1).names,
            c,
            m,
        ),
{
    lists_grow(input, k);
    topmost_shown_least(input.chunk, input.unknown, c, m);
}

/// During a scan for the top layer, each entry shows what has been seen of its column
#[verifier::spinoff_prover]
pub proof fn scan_shows_columns(input: TopInput, k: int, c: int)
    requires
        0 <= k <= step_count(input.chunk),
        0 <= c < 256,
        top_scan(input, k).stop is None,
    ensures
        shows_column(
            input,
            top_scan(input, k).entries[c],
            top_scan(input, k).biomes,
            top_scan(input, k).names,
            c,
            seen_in_column(k, c),
        ),
    decreases k,
{
    top_scan_len(input, k);
    seen_steps(k + 1, c);
    if k > 0 {
        seen_steps(k, c);
        if top_scan(input, k - 1).stop is Some {
            top_scan_stopped(input, k - 1, k);
        }
        top_scan_len(input, k - 1);
        scan_shows_columns(input, k - 1, c);
        let before = top_scan(input, k - 1);
        assert(top_scan(input, k) == top_step(input, before, k - 1));
        if c == (k - 1) % 256 {
            entry_shows_column(input, k - 1);
        } else {
            assert(top_scan(input, k).entries[c] == before.entries[c]);
            column_kept(input, k - 1, before.entries[c], c, seen_in_column(k, c));
        }
    }
}

/// The top layer shows what is seen from above
///
/// In each column, the block of the layer is the topmost opaque block, with its biome and
/// its name, and the depth is the height of the topmost opaque block that is not water.
pub proof fn top_layer_shows_columns(input: TopInput, c: int)
    requires
        0 <= c < 256,
        top_result(input).stop is None,
    ensures
        shows_column(
            input,
            top_result(input).entries[c],
            top_result(input).biomes,
            top_result(input).names,
            c,
            16 * input.chunk.sections@.len() as int,
        ),
{
    scan_shows_columns(input, step_count(input.chunk), c);
}

/// The height of the block at position `j` of column `c`
pub open spec fn height_in_column(chunk: Chunk, c: int, j: int) -> int {
    let k = 256 * j + c;
    16 * section_in_step(chunk, k).y.0 + coords_in_step(k).y.0
}

/// Heights fall along a column, so that a block that is met earlier in a scan is higher
pub proof fn heights_fall(chunk: Chunk, c: int, i: int, j: int)
    requires
        chunk.ascending(),
        0 <= c < 256,
        0 <= i < j < 16 * chunk.sections@.len(),
    ensures
        height_in_column(chunk, c, i) > height_in_column(chunk, c, j),
{
    let last = chunk.sections@.len() - 1;
    step_position(chunk, i / 16, 256 * (i % 16) + c);
    step_position(chunk, j / 16, 256 * (j % 16) + c);
    assert(4096 * (i / 16) + (256 * (i % 16) + c) == 256 * i + c);
    assert(4096 * (j / 16) + (256 * (j % 16) + c) == 256 * j + c);
    assert((256 * (i % 16) + c) / 256 == i % 16);
    assert((256 * (j % 16) + c) / 256 == j % 16);
    if i / 16 < j / 16 {
        assert(chunk.sections@[last - j / 16].y.0 < chunk.sections@[last - i / 16].y.0);
    }
}

/// The top layer shows the highest blocks
///
/// In each column, the block of the layer is the highest opaque block, and the depth is the
/// height of the highest opaque block that is not water.
pub proof fn top_layer_shows_highest(input: TopInput, c: int, j: int)
    requires
        input.chunk.ascending(),
        0 <= c < 256,
        0 <= j < 16 * input.chunk.sections@.len(),
        top_result(input).stop is None,
    ensures
        ({
            let m = 16 * input.chunk.sections@.len() as int;
            let entry = top_result(input).entries[c];
            let top = topmost_shown(input.chunk, input.unknown, c, m);
            &&& shown_in_column(input.chunk, input.unknown, c, j) is Some ==> {
                &&& 0 <= top < m
                &&& entry.block is Some
                &&& entry.block == shown_in_column(input.chunk, input.unknown, c, top)
                &&& height_in_column(input.chunk, c, j) <= height_in_column(input.chunk, c, top)
            }
            &&& solid_in_column(input.chunk, input.unknown, c, j) ==> {
                let solid = topmost_solid(input.chunk, input.unknown, c, m);
                &&& 0 <= solid < m
                &&& solid_in_column(input.chunk, input.unknown, c, solid)
                &&& entry.depth matches Some(depth) && depth.0 == height_in_column(
                    input.chunk,
                    c,
                    solid,
                )
                &&& height_in_column(input.chunk, c, j) <= height_in_column(input.chunk, c, solid)
            }
        }),
{
    let m = 16 * input.chunk.sections@.len() as int;
    let top = topmost_shown(input.chunk, input.unknown, c, m);
    let solid = topmost_solid(input.chunk, input.unknown, c, m);
    top_layer_shows_columns(input, c);
    topmost_shown_least(input.chunk, input.unknown, c, m);
    topmost_solid_least(input.chunk, input.unknown, c, m);
    if top < j {
        heights_fall(input.chunk, c, top, j);
    }
    if solid < j {
        heights_fall(input.chunk, c, solid, j);
    }
}

/// The scan for the top layer looks up each column's biome at most once, so that a biome
/// list with room for one biome per column does not become too long
pub proof fn biome_list_suffices(input: TopInput)
    requires
        input.biomes.len() + 256 <= u16::MAX,
    ensures
        top_result(input).stop != Some(Stop::BiomeOverflow),
{
    biome_list_grows(input, step_count(input.chunk));
}

/// The indices of an entry are stored incremented by 1
pub open spec fn stored_incremented(entry: LayerEntry) -> bool {
    entry.biome != Some(0u16) && entry.name != Some(0u16)
}

proof fn filled_incremented(input: TopInput, state: TopScan, k: int)
    requires
        stored_incremented(state.entries[k % 256]),
    ensures
        stored_incremented(
            filled(
                state.entries[k % 256],
                state.biomes,
                state.names,
                input.capture_names,
                input.unknown,
                section_in_step(input.chunk, k),
                coords_in_step(k),
            ).entry,
        ),
{
    reveal(filled);
    let section = section_in_step(input.chunk, k);
    let coords = coords_in_step(k);
    if let Some(b) = section.spec_biome_at(coords) {
        indexed::placed(state.biomes, b);
    }
    if let Some(block) = section.spec_block_at(coords) {
        if let Some(name) = block.name {
            indexed::placed(state.names, name@);
        }
    }
}

proof fn top_scan_incremented(input: TopInput, k: int, c: int)
    requires
        0 <= c < 256,
    ensures
        stored_incremented(top_scan(input, k).entries[c]),
    decreases k,
{
    if k > 0 {
        top_scan_len(input, k - 1);
        top_scan_incremented(input, k - 1, c);
        if c == (k - 1) % 256 {
            filled_incremented(input, top_scan(input, k - 1), k - 1);
        }
    }
}

/// The indices in the top layer can be looked up in the biome list and in the block name
/// list: they are stored incremented by 1
pub proof fn top_layer_indices(input: TopInput, c: int)
    requires
        0 <= c < 256,
    ensures
        stored_incremented(top_result(input).entries[c]),
{
    top_scan_incremented(input, step_count(input.chunk), c);
}

/// Returns whether a biome list has room for one biome per column of a chunk
pub fn has_room(biome_list: &IndexSet<u32>) -> (r: bool)
    ensures
        r == (indexed::biome_ids(*biome_list).len() + 256 <= u16::MAX),
{
    let count: usize = indexed::biome_count(biome_list);
    count <= 65279
}

/// Fills in a [LayerData] like [top_layer], provided that the biome list has room for one
/// biome per column of the chunk
pub fn top_layer_with_room(
    biome_list: &mut IndexSet<u32>,
    name_list: &mut IndexSet<String>,
    capture_names: bool,
    unknown: UnknownBlockMode,
    chunk: &Chunk,
) -> (r: Option<Result<Option<LayerData>, LayerError>>)
    ensures
        r is None <==> indexed::biome_ids(*old(biome_list)).len() + 256 > u16::MAX,
        r is None ==> *final(biome_list) == *old(biome_list) && *final(name_list) == *old(
            name_list,
        ),
        r matches Some(layer) ==> {
            let result = top_result(
                TopInput {
                    chunk: *chunk,
                    biomes: indexed::biome_ids(*old(biome_list)),
                    names: indexed::block_names(*old(name_list)),
                    capture_names,
                    unknown,
                },
            );
            &&& indexed::biome_ids(*final(biome_list)) == result.biomes
            &&& indexed::block_names(*final(name_list)) == result.names
            &&& gives_layer(layer, *chunk, result.stop, result.entries)
        },
{
    if !has_room(biome_list) {
        return None;
    }
    proof {
        biome_list_suffices(
            TopInput {
                chunk: *chunk,
                biomes: indexed::biome_ids(*biome_list),
                names: indexed::block_names(*name_list),
                capture_names,
                unknown,
            },
        );
    }
    Some(top_layer(biome_list, name_list, capture_names, unknown, chunk))
}

/// The number of entries that have a block
pub open spec fn filled_count(entries: Seq<LayerEntry>) -> int
    decreases entries.len(),
{
    if entries.len() == 0 {
        0
    } else {
        filled_count(entries.drop_last()) + if entries.last().block is Some {
            1int
        } else {
            0
        }
    }
}

proof fn filled_count_updated(entries: Seq<LayerEntry>, c: int, e: LayerEntry)
    requires
        0 <= c < entries.len(),
    ensures
        filled_count(entries) <= entries.len(),
        entries[c].block is None && e.block is Some ==> filled_count(entries.update(c, e))
            == filled_count(entries) + 1,
        entries[c].block is Some == e.block is Some ==> filled_count(entries.update(c, e))
            == filled_count(entries),
        entries[c].block is None ==> filled_count(entries) < entries.len(),
    decreases entries.len(),
{
    let u = entries.update(c, e);
    if c == entries.len() - 1 {
        assert(u.drop_last() =~= entries.drop_last());
        filled_count_bound(entries.drop_last());
    } else {
        assert(u.drop_last() =~= entries.drop_last().update(c, e));
        filled_count_updated(entries.drop_last(), c, e);
    }
}

proof fn filled_count_bound(entries: Seq<LayerEntry>)
    ensures
        filled_count(entries) <= entries.len(),
        (forall|i: int| 0 <= i < entries.len() ==> #[trigger] entries[i].block is None)
            ==> filled_count(entries) == 0,
    decreases entries.len(),
{
    if entries.len() > 0 {
        filled_count_bound(entries.drop_last());
        if forall|i: int| 0 <= i < entries.len() ==> #[trigger] entries[i].block is None {
            assert forall|i: int| 0 <= i < entries.drop_last().len() implies #[trigger] entries.drop_last()[i].block is None by {
                assert(entries.drop_last()[i] == entries[i]);
            }
            assert(entries[entries.len() - 1].block is None);
        }
    }
}

proof fn biome_list_grows(input: TopInput, k: int)
    requires
        input.biomes.len() + 256 <= u16::MAX,
    ensures
        top_scan(input, k).stop != Some(Stop::BiomeOverflow),
        top_scan(input, k).stop is None ==> top_scan(input, k).biomes.len()
            <= input.biomes.len() + filled_count(top_scan(input, k).entries),
    decreases k,
{
    top_scan_len(input, k);
    if k <= 0 {
        filled_count_bound(top_scan(input, k).entries);
    } else {
        biome_list_grows(input, k - 1);
        top_scan_len(input, k - 1);
        reveal(filled);
        let before = top_scan(input, k - 1);
        let c = (k - 1) % 256;
        assert(top_scan(input, k) == top_step(input, before, k - 1));
        let section = section_in_step(input.chunk, k - 1);
        let coords = coords_in_step(k - 1);
        if before.stop is None && before.entries[c].depth is None {
            let e = top_scan(input, k).entries[c];
            filled_count_updated(before.entries, c, e);
            if let Some(b) = section.spec_biome_at(coords) {
                indexed::placed(before.biomes, b);
            }
        }
    }
}

/// Where a column stands in the search for its topmost cave
#[derive(Debug, Clone, Copy, PartialEq, Eq, Structural)]
pub enum CavePhase {
    /// Column has not encountered any opaque block yet (still above the surface)
    Above,
    /// Column is inside the solid surface/roof
    Roof,
    /// Column has entered a cave (air below the roof), looking for the floor
    Cave,
}

/// The color of a block that is known and opaque
pub open spec fn known_opaque(block: PaletteEntry) -> Option<BlockColor> {
    match block.block_type {
        Some(block_type) => if block_type.block_color.has(BlockFlag::Opaque) {
            Some(block_type.block_color)
        } else {
            None
        },
        None => None,
    }
}

/// The state of a scan for the cave layer
pub struct CaveScan {
    /// The entries of all columns
    pub entries: Seq<LayerEntry>,
    /// The phases of all columns
    pub phases: Seq<CavePhase>,
    /// The biome list
    pub biomes: Seq<u32>,
    /// Why the scan has ended, if it has
    pub stop: Option<Stop>,
}

/// The state of a scan for the cave layer once a cave floor has been found in column `c`
pub open spec fn with_floor(
    state: CaveScan,
    c: int,
    color: BlockColor,
    section: ChunkSection,
    coords: SectionBlockCoords,
) -> CaveScan {
    match section.spec_biome_at(coords) {
        None => CaveScan { stop: Some(Stop::Failed(LayerError::BiomeMissing)), ..state },
        Some(b) => {
            let biomes = indexed::with_item(state.biomes, b);
            let index = indexed::place(state.biomes, b);
            if index >= u16::MAX {
                CaveScan { stop: Some(Stop::BiomeOverflow), ..state }
            } else {
                match height_of(section.y, coords.y) {
                    None => CaveScan {
                        biomes,
                        stop: Some(Stop::Failed(LayerError::HeightOutOfBounds)),
                        ..state
                    },
                    Some(height) => CaveScan {
                        entries: state.entries.update(
                            c,
                            LayerEntry {
                                block: Some(color),
                                biome: stored_index(index),
                                name: None,
                                block_light: 0,
                                depth: Some(height),
                            },
                        ),
                        biomes,
                        ..state
                    },
                }
            }
        },
    }
}

/// The state of a scan for the cave layer after a step
pub open spec fn cave_step(chunk: Chunk, state: CaveScan, k: int) -> CaveScan {
    let c = k % 256;
    let section = section_in_step(chunk, k);
    let coords = coords_in_step(k);
    if state.stop is Some || state.entries[c].depth is Some {
        state
    } else {
        match section.spec_block_at(coords) {
            None => CaveScan { stop: Some(Stop::Failed(LayerError::BlockMissing)), ..state },
            Some(block) => match (state.phases[c], known_opaque(block)) {
                (CavePhase::Above, Some(_)) => CaveScan {
                    phases: state.phases.update(c, CavePhase::Roof),
                    ..state
                },
                (CavePhase::Roof, None) => CaveScan {
                    phases: state.phases.update(c, CavePhase::Cave),
                    ..state
                },
                (CavePhase::Cave, Some(color)) => with_floor(state, c, color, section, coords),
                _ => state,
            },
        }
    }
}

/// The state of a scan for the cave layer after the first `k` steps
pub open spec fn cave_scan(chunk: Chunk, biomes: Seq<u32>, k: int) -> CaveScan
    decreases k,
{
    if k <= 0 {
        CaveScan {
            entries: Seq::new(256, |i: int| empty_entry()),
            phases: Seq::new(256, |i: int| CavePhase::Above),
            biomes,
            stop: None,
        }
    } else {
        cave_step(chunk, cave_scan(chunk, biomes, k - 1), k - 1)
    }
}

/// The result of a scan for the cave layer
pub open spec fn cave_result(chunk: Chunk, biomes: Seq<u32>) -> CaveScan {
    cave_scan(chunk, biomes, step_count(chunk))
}

/// A scan for the cave layer keeps an entry and a phase for each column
pub proof fn cave_scan_len(chunk: Chunk, biomes: Seq<u32>, k: int)
    ensures
        cave_scan(chunk, biomes, k).entries.len() == 256,
        cave_scan(chunk, biomes, k).phases.len() == 256,
    decreases k,
{
    if k > 0 {
        cave_scan_len(chunk, biomes, k - 1);
    }
}

/// A scan for the cave layer that has ended does not go on
pub proof fn cave_scan_stopped(chunk: Chunk, biomes: Seq<u32>, k: int, n: int)
    requires
        0 <= k <= n,
        cave_scan(chunk, biomes, k).stop is Some,
    ensures
        cave_scan(chunk, biomes, n) == cave_scan(chunk, biomes, k),
    decreases n - k,
{
    if k < n {
        cave_scan_stopped(chunk, biomes, k, n - 1);
    }
}

/// Looks at one block in the search for cave floors
fn visit_cave(
    data: &mut LayerData,
    phase: &mut LayerBlockArray<CavePhase>,
    biome_list: &mut IndexSet<u32>,
    section: &ChunkSection,
    coords: SectionBlockCoords,
    Ghost(chunk): Ghost<Chunk>,
    Ghost(state): Ghost<CaveScan>,
    Ghost(k): Ghost<int>,
) -> (r: Result<(), LayerError>)
    requires
        old(data).wf(),
        old(phase).wf(),
        coords.wf(),
        coords == coords_in_step(k),
        coords.xz.spec_index_of() == k % 256,
        *section == section_in_step(chunk, k),
        state.stop is None,
        state.entries == old(data).entries(),
        state.phases == old(phase)@,
        state.biomes == indexed::biome_ids(*old(biome_list)),
        forall|c: int|
            0 <= c < 256 && (#[trigger] state.entries[c]).depth is None ==> state.entries[c]
                == empty_entry(),
        cave_step(chunk, state, k).stop != Some(Stop::BiomeOverflow),
    ensures
        ({
            let next = cave_step(chunk, state, k);
            &&& final(data).wf()
            &&& final(phase).wf()
            &&& next.biomes == indexed::biome_ids(*final(biome_list))
            &&& match next.stop {
                None => {
                    &&& r is Ok
                    &&& next.entries == final(data).entries()
                    &&& next.phases == final(phase)@
                },
                Some(Stop::Failed(e)) => r == Err::<(), LayerError>(e),
                Some(Stop::BiomeOverflow) => false,
            }
        }),
{
    let xz = coords.xz;
    let entry = data.entry(xz);
    if entry.done() {
        return Ok(());
    }
    let block = match section.block_at(coords) {
        Some(block) => block,
        None => return Err(LayerError::BlockMissing),
    };
    let opaque = match block.block_type {
        Some(block_type) => if block_type.block_color.is(BlockFlag::Opaque) {
            Some(block_type.block_color)
        } else {
            None
        },
        None => None,
    };
    match (phase.at(xz), opaque) {
        (CavePhase::Above, Some(_)) => phase.put(xz, CavePhase::Roof),
        (CavePhase::Roof, None) => phase.put(xz, CavePhase::Cave),
        (CavePhase::Cave, Some(color)) => {
            let biome: u32 = match section.biome_at(coords) {
                Some(biome) => biome,
                None => return Err(LayerError::BiomeMissing),
            };
            let (biome_index, _) = indexed::insert_biome(biome_list, biome);
            let height = match BlockHeight::new(section.y, coords.y) {
                Ok(height) => height,
                Err(e) => return Err(e),
            };
            let floor = LayerEntry {
                block: Some(color),
                biome: Some((biome_index + 1) as u16),
                depth: Some(height),
                ..entry
            };
            data.set_entry(xz, floor);
        },
        _ => {},
    }
    Ok(())
}

proof fn cave_entries_empty(chunk: Chunk, biomes: Seq<u32>, k: int)
    ensures
        forall|c: int|
            0 <= c < 256 && (#[trigger] cave_scan(chunk, biomes, k).entries[c]).depth is None
                ==> cave_scan(chunk, biomes, k).entries[c] == empty_entry(),
    decreases k,
{
    cave_scan_len(chunk, biomes, k);
    if k > 0 {
        cave_scan_len(chunk, biomes, k - 1);
        cave_entries_empty(chunk, biomes, k - 1);
    }
}

/// Fills in a [LayerData] with the floor of the topmost cave in each column
///
/// For each (X, Z) coordinate, the column is scanned downwards: after passing
/// through the surface/roof (the first run of opaque blocks) the first air gap
/// is treated as a cave, and the next opaque block below it is recorded as the
/// cave floor. Columns without a cave under solid ground stay empty.
pub fn cave_layer(biome_list: &mut IndexSet<u32>, chunk: &Chunk) -> (r: Result<
    Option<LayerData>,
    LayerError,
>)
    requires
        cave_result(*chunk, indexed::biome_ids(*old(biome_list))).stop != Some(
            Stop::BiomeOverflow,
        ),
    ensures
        ({
            let result = cave_result(*chunk, indexed::biome_ids(*old(biome_list)));
            &&& indexed::biome_ids(*final(biome_list)) == result.biomes
            &&& gives_layer(r, *chunk, result.stop, result.entries)
        }),
{
    let ghost biomes = indexed::biome_ids(*biome_list);
    if chunk.is_empty() {
        return Ok(None);
    }
    let mut ret = LayerData::empty();
    let mut phase = LayerBlockArray::filled(CavePhase::Above);
    let count: usize = chunk.sections.len();
    let mut i: usize = 0;
    while i < count
        invariant
            count == chunk.sections.len(),
            i <= count,
            biomes == indexed::biome_ids(*old(biome_list)),
            cave_result(*chunk, biomes).stop != Some(Stop::BiomeOverflow),
            ret.wf(),
            phase.wf(),
            cave_scan(*chunk, biomes, 4096 * i).stop is None,
            cave_scan(*chunk, biomes, 4096 * i).entries == ret.entries(),
            cave_scan(*chunk, biomes, 4096 * i).phases == phase@,
            cave_scan(*chunk, biomes, 4096 * i).biomes == indexed::biome_ids(*biome_list),
        decreases count - i,
    {
        let section = &chunk.sections[count - 1 - i];
        let mut p: usize = 0;
        while p < 4096
            invariant
                count == chunk.sections.len(),
                i < count,
                p <= 4096,
                *section == chunk.sections@[count - 1 - i],
                biomes == indexed::biome_ids(*old(biome_list)),
                cave_result(*chunk, biomes).stop != Some(Stop::BiomeOverflow),
                ret.wf(),
                phase.wf(),
                cave_scan(*chunk, biomes, 4096 * i + p).stop is None,
                cave_scan(*chunk, biomes, 4096 * i + p).entries == ret.entries(),
                cave_scan(*chunk, biomes, 4096 * i + p).phases == phase@,
                cave_scan(*chunk, biomes, 4096 * i + p).biomes == indexed::biome_ids(*biome_list),
            decreases 4096 - p,
        {
            let ghost k = 4096 * i + p;
            let xz = LayerBlockCoords { x: (p % 16) as u8, z: (p % 256 / 16) as u8 };
            let y = BlockY((15 - p / 256) as u8);
            let coords = SectionBlockCoords { xz, y };
            let ghost state = cave_scan(*chunk, biomes, k);
            assert(cave_scan(*chunk, biomes, k + 1) == cave_step(*chunk, state, k));
            proof {
                step_position(*chunk, i as int, p as int);
                cave_entries_empty(*chunk, biomes, k);
                if cave_scan(*chunk, biomes, k + 1).stop is Some {
                    cave_scan_stopped(*chunk, biomes, k + 1, step_count(*chunk));
                }
            }
            match visit_cave(
                &mut ret,
                &mut phase,
                biome_list,
                section,
                coords,
                Ghost(*chunk),
                Ghost(state),
                Ghost(k),
            ) {
                Ok(()) => {},
                Err(e) => return Err(e),
            }
            p = p + 1;
        }
        i = i + 1;
    }
    Ok(Some(ret))
}

/// The color of the block at position `j` of column `c`, if it is known and opaque
pub open spec fn opaque_in_column(chunk: Chunk, c: int, j: int) -> Option<BlockColor> {
    let k = 256 * j + c;
    match section_in_step(chunk, k).spec_block_at(coords_in_step(k)) {
        Some(block) => known_opaque(block),
        None => None,
    }
}

/// The next block of column `c` from `from` on, among the first `m`, that is opaque or is
/// not, or else `m`
pub open spec fn next_in_column(chunk: Chunk, c: int, opaque: bool, from: int, m: int) -> int
    decreases m - from,
{
    if from >= m {
        m
    } else if (opaque_in_column(chunk, c, from) is Some) == opaque {
        from
    } else {
        next_in_column(chunk, c, opaque, from + 1, m)
    }
}

/// [next_in_column] finds the next block of the given kind
pub proof fn next_in_column_least(chunk: Chunk, c: int, opaque: bool, from: int, m: int)
    requires
        from <= m,
    ensures
        from <= next_in_column(chunk, c, opaque, from, m) <= m,
        next_in_column(chunk, c, opaque, from, m) < m ==> (opaque_in_column(
            chunk,
            c,
            next_in_column(chunk, c, opaque, from, m),
        ) is Some) == opaque,
        forall|j: int|
            from <= j < next_in_column(chunk, c, opaque, from, m) ==> (#[trigger] opaque_in_column(
                chunk,
                c,
                j,
            ) is Some) != opaque,
    decreases m - from,
{
    if from < m && (opaque_in_column(chunk, c, from) is Some) != opaque {
        next_in_column_least(chunk, c, opaque, from + 1, m);
    }
}

proof fn next_in_column_extended(chunk: Chunk, c: int, opaque: bool, from: int, m: int)
    requires
        from <= m,
    ensures
        next_in_column(chunk, c, opaque, from, m + 1) == (if next_in_column(
            chunk,
            c,
            opaque,
            from,
            m,
        ) < m || (opaque_in_column(chunk, c, m) is Some) == opaque {
            next_in_column(chunk, c, opaque, from, m)
        } else {
            m + 1
        }),
    decreases m - from,
{
    next_in_column_least(chunk, c, opaque, from, m);
    reveal_with_fuel(next_in_column, 2);
    if from < m && (opaque_in_column(chunk, c, from) is Some) != opaque {
        next_in_column_extended(chunk, c, opaque, from + 1, m);
    }
}

/// The first opaque block among the first `m` of column `c`
pub open spec fn roof_of(chunk: Chunk, c: int, m: int) -> int {
    next_in_column(chunk, c, true, 0, m)
}

/// The first block below the roof that is not opaque
pub open spec fn gap_of(chunk: Chunk, c: int, m: int) -> int {
    next_in_column(chunk, c, false, roof_of(chunk, c, m), m)
}

/// The first opaque block below the gap
pub open spec fn floor_of(chunk: Chunk, c: int, m: int) -> int {
    next_in_column(chunk, c, true, gap_of(chunk, c, m), m)
}

/// What an entry holds once the first `m` blocks of column `c` have been searched
pub open spec fn shows_cave(
    chunk: Chunk,
    entry: LayerEntry,
    biomes: Seq<u32>,
    c: int,
    m: int,
) -> bool {
    let floor = floor_of(chunk, c, m);
    if floor < m {
        let k = 256 * floor + c;
        let section = section_in_step(chunk, k);
        &&& entry.block == opaque_in_column(chunk, c, floor)
        &&& entry.biome matches Some(b) && 1 <= b <= biomes.len() && Some(biomes[b - 1])
            == section.spec_biome_at(coords_in_step(k))
        &&& entry.depth == height_of(section.y, coords_in_step(k).y)
        &&& entry.depth is Some
        &&& entry.name is None
        &&& entry.block_light == 0
    } else {
        entry == empty_entry()
    }
}

/// The phase of column `c` after its first `m` blocks
pub open spec fn phase_of(chunk: Chunk, c: int, m: int) -> CavePhase {
    if gap_of(chunk, c, m) < m {
        CavePhase::Cave
    } else if roof_of(chunk, c, m) < m {
        CavePhase::Roof
    } else {
        CavePhase::Above
    }
}

proof fn cave_scan_shows(chunk: Chunk, biomes: Seq<u32>, k: int, c: int)
    requires
        0 <= k <= step_count(chunk),
        0 <= c < 256,
        cave_scan(chunk, biomes, k).stop is None,
    ensures
        shows_cave(
            chunk,
            cave_scan(chunk, biomes, k).entries[c],
            cave_scan(chunk, biomes, k).biomes,
            c,
            seen_in_column(k, c),
        ),
        cave_scan(chunk, biomes, k).phases[c] == phase_of(chunk, c, seen_in_column(k, c)),
    decreases k,
{
    cave_scan_len(chunk, biomes, k);
    if k > 0 {
        if cave_scan(chunk, biomes, k - 1).stop is Some {
            cave_scan_stopped(chunk, biomes, k - 1, k);
        }
        cave_scan_len(chunk, biomes, k - 1);
        cave_scan_shows(chunk, biomes, k - 1, c);
        let before = cave_scan(chunk, biomes, k - 1);
        assert(cave_scan(chunk, biomes, k) == cave_step(chunk, before, k - 1));
        let section = section_in_step(chunk, k - 1);
        let coords = coords_in_step(k - 1);
        if let Some(b) = section.spec_biome_at(coords) {
            indexed::placed(before.biomes, b);
        }
        let m = seen_in_column(k - 1, c);
        let roof = roof_of(chunk, c, m);
        let gap = gap_of(chunk, c, m);
        next_in_column_least(chunk, c, true, 0, m);
        next_in_column_least(chunk, c, false, roof, m);
        next_in_column_least(chunk, c, true, gap, m);
        if c == (k - 1) % 256 {
            assert(m == (k - 1) / 256 && 256 * m + c == k - 1 && seen_in_column(k, c) == m + 1);
            next_in_column_extended(chunk, c, true, 0, m);
            if roof < m {
                next_in_column_extended(chunk, c, false, roof, m);
            }
            if gap < m {
                next_in_column_extended(chunk, c, true, gap, m);
            }
            reveal_with_fuel(next_in_column, 2);
        } else {
            assert(seen_in_column(k, c) == m);
        }
    }
}

/// The cave layer shows the floor of each column's topmost cave
///
/// The cave begins with the first block below the first opaque blocks that is not opaque,
/// and its floor is the next opaque block below. A column without such a floor is empty.
pub proof fn cave_layer_shows_caves(chunk: Chunk, biomes: Seq<u32>, c: int)
    requires
        0 <= c < 256,
        cave_result(chunk, biomes).stop is None,
    ensures
        shows_cave(
            chunk,
            cave_result(chunk, biomes).entries[c],
            cave_result(chunk, biomes).biomes,
            c,
            16 * chunk.sections@.len() as int,
        ),
{
    cave_scan_shows(chunk, biomes, step_count(chunk), c);
}

/// The cave layer shows the highest cave of each column
///
/// The roof is the highest opaque block, the gap is the highest block below the roof that is
/// not opaque, and the floor is the highest opaque block below the gap. The depth of the layer
/// is the height of the floor.
pub proof fn cave_layer_shows_highest(chunk: Chunk, biomes: Seq<u32>, c: int, j: int)
    requires
        chunk.ascending(),
        0 <= c < 256,
        0 <= j < 16 * chunk.sections@.len(),
        cave_result(chunk, biomes).stop is None,
    ensures
        ({
            let m = 16 * chunk.sections@.len() as int;
            let height = height_in_column(chunk, c, j);
            let opaque = opaque_in_column(chunk, c, j) is Some;
            let roof = roof_of(chunk, c, m);
            let gap = gap_of(chunk, c, m);
            let floor = floor_of(chunk, c, m);
            &&& opaque ==> roof < m && height <= height_in_column(chunk, c, roof)
            &&& roof < m && !opaque && height < height_in_column(chunk, c, roof) ==> {
                &&& gap < m
                &&& height <= height_in_column(chunk, c, gap) < height_in_column(chunk, c, roof)
            }
            &&& gap < m && opaque && height < height_in_column(chunk, c, gap) ==> {
                &&& floor < m
                &&& height <= height_in_column(chunk, c, floor) < height_in_column(chunk, c, gap)
                &&& cave_result(chunk, biomes).entries[c].depth matches Some(depth) && depth.0
                    == height_in_column(chunk, c, floor)
            }
        }),
{
    let m = 16 * chunk.sections@.len() as int;
    let roof = roof_of(chunk, c, m);
    let gap = gap_of(chunk, c, m);
    let floor = floor_of(chunk, c, m);
    cave_layer_shows_caves(chunk, biomes, c);
    next_in_column_least(chunk, c, true, 0, m);
    next_in_column_least(chunk, c, false, roof, m);
    next_in_column_least(chunk, c, true, gap, m);
    if j < roof < m {
        heights_fall(chunk, c, j, roof);
    }
    if roof < j {
        heights_fall(chunk, c, roof, j);
    }
    if j < gap < m {
        heights_fall(chunk, c, j, gap);
    }
    if gap < j {
        heights_fall(chunk, c, gap, j);
    }
    if floor < j {
        heights_fall(chunk, c, floor, j);
    }
    if roof < gap < m {
        heights_fall(chunk, c, roof, gap);
    }
    if gap < floor < m {
        heights_fall(chunk, c, gap, floor);
    }
}

/// The scan for the cave layer looks up each column's biome at most once, so that a biome
/// list with room for one biome per column does not become too long
pub proof fn cave_biome_list_suffices(chunk: Chunk, biomes: Seq<u32>)
    requires
        biomes.len() + 256 <= u16::MAX,
    ensures
        cave_result(chunk, biomes).stop != Some(Stop::BiomeOverflow),
{
    cave_biome_list_grows(chunk, biomes, step_count(chunk));
}

proof fn cave_scan_incremented(chunk: Chunk, biomes: Seq<u32>, k: int, c: int)
    requires
        0 <= c < 256,
    ensures
        stored_incremented(cave_scan(chunk, biomes, k).entries[c]),
    decreases k,
{
    if k > 0 {
        cave_scan_len(chunk, biomes, k - 1);
        cave_scan_incremented(chunk, biomes, k - 1, c);
        if let Some(b) = section_in_step(chunk, k - 1).spec_biome_at(coords_in_step(k - 1)) {
            indexed::placed(cave_scan(chunk, biomes, k - 1).biomes, b);
        }
    }
}

/// The indices in the cave layer can be looked up in the biome list: they are stored
/// incremented by 1
pub proof fn cave_layer_indices(chunk: Chunk, biomes: Seq<u32>, c: int)
    requires
        0 <= c < 256,
    ensures
        stored_incremented(cave_result(chunk, biomes).entries[c]),
{
    cave_scan_incremented(chunk, biomes, step_count(chunk), c);
}

/// Fills in a [LayerData] like [cave_layer], provided that the biome list has room for one
/// biome per column of the chunk
pub fn cave_layer_with_room(biome_list: &mut IndexSet<u32>, chunk: &Chunk) -> (r: Option<
    Result<Option<LayerData>, LayerError>,
>)
    ensures
        r is None <==> indexed::biome_ids(*old(biome_list)).len() + 256 > u16::MAX,
        r is None ==> *final(biome_list) == *old(biome_list),
        r matches Some(layer) ==> {
            let result = cave_result(*chunk, indexed::biome_ids(*old(biome_list)));
            &&& indexed::biome_ids(*final(biome_list)) == result.biomes
            &&& gives_layer(layer, *chunk, result.stop, result.entries)
        },
{
    if !has_room(biome_list) {
        return None;
    }
    proof {
        cave_biome_list_suffices(*chunk, indexed::biome_ids(*biome_list));
    }
    Some(cave_layer(biome_list, chunk))
}

proof fn cave_biome_list_grows(chunk: Chunk, biomes: Seq<u32>, k: int)
    requires
        biomes.len() + 256 <= u16::MAX,
    ensures
        cave_scan(chunk, biomes, k).stop != Some(Stop::BiomeOverflow),
        cave_scan(chunk, biomes, k).stop is None ==> cave_scan(chunk, biomes, k).biomes.len()
            <= biomes.len() + filled_count(cave_scan(chunk, biomes, k).entries),
    decreases k,
{
    cave_scan_len(chunk, biomes, k);
    if k <= 0 {
        filled_count_bound(cave_scan(chunk, biomes, k).entries);
    } else {
        cave_biome_list_grows(chunk, biomes, k - 1);
        cave_scan_len(chunk, biomes, k - 1);
        cave_entries_empty(chunk, biomes, k - 1);
        let before = cave_scan(chunk, biomes, k - 1);
        let c = (k - 1) % 256;
        assert(cave_scan(chunk, biomes, k) == cave_step(chunk, before, k - 1));
        if before.stop is None && before.entries[c].depth is None {
            filled_count_updated(before.entries, c, cave_scan(chunk, biomes, k).entries[c]);
            if let Some(b) = section_in_step(chunk, k - 1).spec_biome_at(coords_in_step(k - 1)) {
                indexed::placed(before.biomes, b);
            }
        }
    }
}

} // verus!
