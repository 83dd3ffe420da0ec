//! Coordinates and arrays of chunk and block data

use vstd::prelude::*;

verus! {

/// Number of blocks along each axis of a chunk section
pub const BLOCKS_PER_CHUNK: usize = 16;

/// Number of chunks along each axis of a region
pub const CHUNKS_PER_REGION: usize = 32;

/// Number of (X, Z) coordinate pairs of a chunk
pub const COLUMNS_PER_CHUNK: usize = 256;

/// Number of blocks of a chunk section
pub const BLOCKS_PER_SECTION: usize = 4096;

/// Y coordinate of a chunk section, in units of sections
#[derive(Debug, Clone, Copy, PartialEq, Eq, Structural)]
pub struct SectionY(pub i32);

/// Y coordinate of a block inside its section
#[derive(Debug, Clone, Copy, PartialEq, Eq, Structural)]
pub struct BlockY(pub u8);

/// Coordinate pair of a block column inside its chunk
#[derive(Debug, Clone, Copy, PartialEq, Eq, Structural)]
pub struct LayerBlockCoords {
    /// The X coordinate
    pub x: u8,
    /// The Z coordinate
    pub z: u8,
}

impl LayerBlockCoords {
    /// The coordinates lie inside a chunk
    pub open spec fn wf(self) -> bool {
        self.x < BLOCKS_PER_CHUNK && self.z < BLOCKS_PER_CHUNK
    }

    /// The position of the column in the order in which a chunk's columns are stored
    pub open spec fn spec_index_of(self) -> int {
        16 * self.z + self.x
    }

    /// Returns the position of the column in the order in which a chunk's columns are
    /// stored
    pub fn index_of(self) -> (r: usize)
        requires
            self.wf(),
        ensures
            r == self.spec_index_of(),
            r < COLUMNS_PER_CHUNK,
    {
        16 * (self.z as usize) + self.x as usize
    }
}

/// Coordinates of a block inside its section
#[derive(Debug, Clone, Copy, PartialEq, Eq, Structural)]
pub struct SectionBlockCoords {
    /// The X and Z coordinates
    pub xz: LayerBlockCoords,
    /// The Y coordinate
    pub y: BlockY,
}

impl SectionBlockCoords {
    /// The coordinates lie inside a section
    pub open spec fn wf(self) -> bool {
        self.xz.wf() && self.y.0 < BLOCKS_PER_CHUNK
    }

    /// The position of the block in the order in which a section's blocks are stored
    pub open spec fn spec_offset(self) -> int {
        256 * self.y.0 + self.xz.spec_index_of()
    }

    /// Returns the position of the block in the order in which a section's blocks are
    /// stored: X varies fastest, Y slowest
    pub fn offset(self) -> (r: usize)
        requires
            self.wf(),
        ensures
            r == self.spec_offset(),
            r < BLOCKS_PER_SECTION,
    {
        256 * (self.y.0 as usize) + self.xz.index_of()
    }
}

/// Coordinate pair of a chunk inside its region
#[derive(Debug, Clone, Copy, PartialEq, Eq, Structural)]
pub struct ChunkCoords {
    /// The X coordinate
    pub x: u8,
    /// The Z coordinate
    pub z: u8,
}

/// Number of chunks of a region
pub const CHUNKS_IN_REGION: usize = 1024;

/// An array with one item for each chunk of a region
#[derive(Debug, PartialEq, Eq)]
pub struct ChunkArray<T> {
    /// The items, with X varying fastest
    pub items: Vec<T>,
}

impl<T> View for ChunkArray<T> {
    type V = Seq<T>;

    open spec fn view(&self) -> Seq<T> {
        self.items@
    }
}

impl<T> ChunkArray<T> {
    /// The array has an item for each chunk
    pub open spec fn wf(&self) -> bool {
        self@.len() == CHUNKS_IN_REGION
    }
}

/// An array with one item for each block column of a chunk
#[derive(Debug, PartialEq, Eq)]
pub struct LayerBlockArray<T> {
    /// The items, with X varying fastest
    pub items: Vec<T>,
}

impl<T> View for LayerBlockArray<T> {
    type V = Seq<T>;

    open spec fn view(&self) -> Seq<T> {
        self.items@
    }
}

impl<T> LayerBlockArray<T> {
    /// The array has an item for each column
    pub open spec fn wf(&self) -> bool {
        self@.len() == COLUMNS_PER_CHUNK
    }
}

impl<T: Copy> LayerBlockArray<T> {
    /// Creates an array with the same item in each column
    pub fn filled(item: T) -> (r: Self)
        ensures
            r.wf(),
            r@ == Seq::new(256, |i: int| item),
    {
        let mut items: Vec<T> = Vec::new();
        let mut i: usize = 0;
        while i < COLUMNS_PER_CHUNK
            invariant
                i <= 256,
                items@ == Seq::new(i as nat, |j: int| item),
            decreases 256 - i,
        {
            items.push(item);
            i = i + 1;
            assert(items@ =~= Seq::new(i as nat, |j: int| item));
        }
        LayerBlockArray { items }
    }

    /// Returns the item of a column
    pub fn at(&self, coords: LayerBlockCoords) -> (r: T)
        requires
            self.wf(),
            coords.wf(),
        ensures
            r == self@[coords.spec_index_of()],
    {
        self.items[coords.index_of()]
    }

    /// Replaces the item of a column
    pub fn put(&mut self, coords: LayerBlockCoords, item: T)
        requires
            old(self).wf(),
            coords.wf(),
        ensures
            final(self).wf(),
            final(self)@ == old(self)@.update(coords.spec_index_of(), item),
    {
        let i: usize = coords.index_of();
        self.items.set(i, item);
    }
}

/// The columns of a chunk and the blocks of a section are stored with X varying fastest, then
/// Z, then Y, each at a place of its own
pub proof fn blocks_stored(a: SectionBlockCoords, b: SectionBlockCoords)
    requires
        a.wf(),
        b.wf(),
    ensures
        0 <= a.xz.spec_index_of() < 256,
        0 <= a.spec_offset() < 4096,
        a.spec_offset() == b.spec_offset() ==> a == b,
        a.xz.spec_index_of() == b.xz.spec_index_of() ==> a.xz == b.xz,
        b.xz.x == a.xz.x + 1 && b.xz.z == a.xz.z && b.y == a.y ==> b.spec_offset()
            == a.spec_offset() + 1,
        b.xz.x == a.xz.x && b.xz.z == a.xz.z + 1 && b.y == a.y ==> b.spec_offset()
            == a.spec_offset() + 16,
        b.xz == a.xz && b.y.0 == a.y.0 + 1 ==> b.spec_offset() == a.spec_offset() + 256,
        b.xz.x == a.xz.x + 1 && b.xz.z == a.xz.z ==> b.xz.spec_index_of() == a.xz.spec_index_of()
            + 1,
        a.xz.x < 16,
        a.xz.z < 16,
        a.y.0 < 16,
{
}

} // verus!
