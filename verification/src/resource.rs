//! Block types and their colors

use crate::text;
use vstd::prelude::*;

verus! {

/// Properties of a block that decide how it is rendered
#[derive(Debug, Clone, Copy, PartialEq, Eq, Structural)]
pub enum BlockFlag {
    /// The block is visible on the map
    Opaque,
    /// The block is water
    Water,
}

/// Color of a block, and the properties that decide how it is rendered
#[derive(Debug, Clone, Copy, PartialEq, Eq)]
pub struct BlockColor {
    /// Whether the block is visible on the map
    pub opaque: bool,
    /// Whether the block is water
    pub water: bool,
    /// The color, as red, green and blue
    pub color: [u8; 3],
}

/// The colors in which a block can be rendered that is not known
#[derive(Debug, Clone, Copy, PartialEq, Eq)]
pub struct UnknownColors {
    /// The neutral gray of all unknown blocks
    pub neutral: BlockColor,
    /// The color that is derived from the name of the block
    pub named: BlockColor,
}

/// How unrecognized (for example modded) blocks are rendered
#[derive(Debug, Clone, Copy, PartialEq, Eq, Structural)]
pub enum UnknownBlockMode {
    /// Treat unknown blocks as transparent (do not render them)
    Hide,
    /// Render unknown blocks in a neutral gray
    Gray,
    /// Render unknown blocks in a stable color derived from their name
    Color,
}

impl BlockColor {
    /// The block has a property
    pub open spec fn has(self, flag: BlockFlag) -> bool {
        match flag {
            BlockFlag::Opaque => self.opaque,
            BlockFlag::Water => self.water,
        }
    }

    /// Returns whether the block has a property
    pub fn is(&self, flag: BlockFlag) -> (r: bool)
        ensures
            r == self.has(flag),
    {
        match flag {
            BlockFlag::Opaque => self.opaque,
            BlockFlag::Water => self.water,
        }
    }

    /// The color of a block that is not known
    pub open spec fn spec_unknown(colors: UnknownColors, mode: UnknownBlockMode) -> Option<
        BlockColor,
    > {
        match mode {
            UnknownBlockMode::Hide => None,
            UnknownBlockMode::Gray => Some(colors.neutral),
            UnknownBlockMode::Color => Some(colors.named),
        }
    }

    /// Returns the color of a block that is not known
    pub fn unknown(colors: UnknownColors, mode: UnknownBlockMode) -> (r: Option<BlockColor>)
        ensures
            r == Self::spec_unknown(colors, mode),
    {
        match mode {
            UnknownBlockMode::Hide => None,
            UnknownBlockMode::Gray => Some(colors.neutral),
            UnknownBlockMode::Color => Some(colors.named),
        }
    }
}

/// A known kind of block
#[derive(Debug, Clone, Copy, PartialEq, Eq)]
pub struct BlockType {
    /// The color of the block
    pub block_color: BlockColor,
}

/// The known kinds of blocks, by their names without namespace
#[derive(Debug)]
pub struct BlockTypes {
    /// The names and kinds; the first entry of a name counts
    pub entries: Vec<(String, BlockType)>,
}

/// The kind of block that `name` stands for
pub open spec fn block_type_of(entries: Seq<(String, BlockType)>, name: Seq<char>) -> Option<
    BlockType,
>
    decreases entries.len(),
{
    if entries.len() == 0 {
        None
    } else if entries[0].0@ == name {
        Some(entries[0].1)
    } else {
        block_type_of(entries.skip(1), name)
    }
}

impl BlockTypes {
    /// Looks up a block name (without namespace)
    pub fn get(&self, name: &str) -> (r: Option<BlockType>)
        ensures
            r == block_type_of(self.entries@, name@),
    {
        let mut i: usize = 0;
        assert(self.entries@.skip(0) =~= self.entries@);
        while i < self.entries.len()
            invariant
                i <= self.entries.len(),
                block_type_of(self.entries@, name@) == block_type_of(
                    self.entries@.skip(i as int),
                    name@,
                ),
            decreases self.entries.len() - i,
        {
            assert(self.entries@.skip(i as int).skip(1) =~= self.entries@.skip(i + 1));
            if text::same(self.entries[i].0.as_str(), name) {
                return Some(self.entries[i].1);
            }
            i = i + 1;
        }
        None
    }
}

/// A kind of block is found by its name, the first one where there are several
pub proof fn block_type_found(entries: Seq<(String, BlockType)>, name: Seq<char>, i: int)
    requires
        forall|j: int| 0 <= j < i && j < entries.len() ==> (#[trigger] entries[j]).0@ != name,
    ensures
        0 <= i < entries.len() && entries[i].0@ == name ==> block_type_of(entries, name) == Some(
            entries[i].1,
        ),
        i >= entries.len() ==> block_type_of(entries, name) is None,
    decreases entries.len(),
{
    if entries.len() > 0 && i > 0 {
        assert(entries[0].0@ != name);
        let rest = entries.skip(1);
        assert forall|j: int| 0 <= j < i - 1 && j < rest.len() implies (#[trigger] rest[j]).0@
            != name by {
            assert(entries[j + 1].0@ != name);
        }
        block_type_found(rest, name, i - 1);
        if i < entries.len() {
            assert(rest[i - 1] == entries[i]);
        }
    }
}

/// Unknown blocks are hidden, gray, or in the color of their name
pub proof fn unknown_block_modes(colors: UnknownColors, block: BlockColor)
    ensures
        BlockColor::spec_unknown(colors, UnknownBlockMode::Hide) is None,
        BlockColor::spec_unknown(colors, UnknownBlockMode::Gray) == Some(colors.neutral),
        BlockColor::spec_unknown(colors, UnknownBlockMode::Color) == Some(colors.named),
        block.has(BlockFlag::Opaque) == block.opaque,
        block.has(BlockFlag::Water) == block.water,
{
}

} // verus!
