//! Per-chunk overlay data
//!
//! Two kinds of per-chunk information are accumulated while every chunk is visited for
//! tile generation:
//!
//! * the `InhabitedTime` of each chunk
//! * presence of notable blocks (rails, farmland, portals) and a "built" score derived
//!   from player-placed block entities
//!
//! The data is collected per dimension.

use crate::de;
use crate::paths;
use crate::sorting;
use crate::sorting::Ordered;
use crate::text;
use vstd::prelude::*;
use vstd::string::*;

verus! {

/// A Minecraft dimension
///
/// Used as the top-level key of the overlay output files.
#[derive(Debug, Clone, Copy, PartialEq, Eq, PartialOrd, Ord, Structural)]
pub enum Dimension {
    /// The overworld (default dimension)
    Overworld,
    /// The nether (dimension -1 in Java, 1 in Bedrock)
    Nether,
    /// The end (dimension 1 in Java, 2 in Bedrock)
    End,
}

impl Dimension {
    /// All dimensions in output order
    pub open spec fn spec_all() -> Seq<Dimension> {
        seq![Dimension::Overworld, Dimension::Nether, Dimension::End]
    }

    /// Returns all dimensions in output order
    pub fn all() -> (r: [Dimension; 3])
        ensures
            r@ == Self::spec_all(),
    {
        let r = [Dimension::Overworld, Dimension::Nether, Dimension::End];
        assert(r@ =~= Self::spec_all());
        r
    }

    /// The key of the dimension in output files
    pub open spec fn spec_key(self) -> Seq<char> {
        match self {
            Dimension::Overworld => "overworld"@,
            Dimension::Nether => "nether"@,
            Dimension::End => "end"@,
        }
    }

    /// Returns the key of the dimension in output files
    pub fn key(self) -> (r: &'static str)
        ensures
            r@ == self.spec_key(),
    {
        match self {
            Dimension::Overworld => "overworld",
            Dimension::Nether => "nether",
            Dimension::End => "end",
        }
    }
}

/// A block or block entity ID without a `minecraft:` namespace prefix
pub open spec fn local_name(id: Seq<char>) -> Seq<char> {
    text::without_prefix(id, "minecraft:"@)
}

/// Strips a `minecraft:` namespace prefix from a block or block entity ID
pub fn strip_namespace(id: &str) -> (r: &str)
    ensures
        r@ == local_name(id@),
{
    match text::strip_prefix(id, "minecraft:") {
        Some(name) => name,
        None => id,
    }
}

/// Block entities counted towards the "built" score
///
/// These are player-placed functional blocks; the number of such block
/// entities in a chunk is used as a rough measure of how built-up it is.
pub open spec fn built_name(name: Seq<char>) -> bool {
    ||| name == "chest"@
    ||| name == "trapped_chest"@
    ||| name == "barrel"@
    ||| name == "furnace"@
    ||| name == "blast_furnace"@
    ||| name == "smoker"@
    ||| name == "crafting_table"@
    ||| name == "enchanting_table"@
    ||| name == "hopper"@
    ||| name == "dropper"@
    ||| name == "dispenser"@
    ||| name == "anvil"@
    ||| name == "beacon"@
    ||| name == "brewing_stand"@
    ||| name == "jukebox"@
    ||| name == "lectern"@
    ||| name == "loom"@
    ||| name == "cartography_table"@
    ||| name == "stonecutter"@
    ||| name == "campfire"@
    ||| name == "soul_campfire"@
}

/// Returns whether a block entity ID counts towards the "built" score
pub fn is_built_block_entity(id: &str) -> (r: bool)
    ensures
        r == built_name(local_name(id@)),
{
    let name = strip_namespace(id);
    text::same(name, "chest") || text::same(name, "trapped_chest") || text::same(name, "barrel")
        || text::same(name, "furnace") || text::same(name, "blast_furnace") || text::same(
        name,
        "smoker",
    ) || text::same(name, "crafting_table") || text::same(name, "enchanting_table") || text::same(
        name,
        "hopper",
    ) || text::same(name, "dropper") || text::same(name, "dispenser") || text::same(name, "anvil")
        || text::same(name, "beacon") || text::same(name, "brewing_stand") || text::same(
        name,
        "jukebox",
    ) || text::same(name, "lectern") || text::same(name, "loom") || text::same(
        name,
        "cartography_table",
    ) || text::same(name, "stonecutter") || text::same(name, "campfire") || text::same(
        name,
        "soul_campfire",
    )
}

/// A generated structure's bounding box, for the structures viewer layer
#[derive(Debug)]
pub struct Structure {
    /// Structure type ID (for example `minecraft:village`)
    pub structure_type: String,
    /// Bounding box in block coordinates `[minX, minZ, maxX, maxZ]`
    pub bb: [i32; 4],
}

impl View for Structure {
    type V = (Seq<char>, [i32; 4]);

    open spec fn view(&self) -> (Seq<char>, [i32; 4]) {
        (self.structure_type@, self.bb)
    }
}

/// The types and bounding boxes of structures
pub open spec fn structures_view(s: Seq<Structure>) -> Seq<(Seq<char>, [i32; 4])> {
    s.map_values(|x: Structure| x@)
}

impl Structure {
    /// Returns a copy of the structure
    fn duplicate(&self) -> (r: Structure)
        ensures
            r == *self,
    {
        Structure { structure_type: self.structure_type.clone(), bb: self.bb }
    }
}

/// A bounding box precedes another one
pub open spec fn bb_le(a: [i32; 4], b: [i32; 4]) -> bool {
    if a[0] != b[0] {
        a[0] < b[0]
    } else if a[1] != b[1] {
        a[1] < b[1]
    } else if a[2] != b[2] {
        a[2] < b[2]
    } else {
        a[3] <= b[3]
    }
}

/// Structures are ordered by their bounding boxes, then by their types
impl Ordered for Structure {
    open spec fn precedes(a: Self, b: Self) -> bool {
        bb_le(a.bb, b.bb) && (bb_le(b.bb, a.bb) ==> text::lex_le(
            a.structure_type@,
            b.structure_type@,
        ))
    }

    proof fn total(a: Self, b: Self) {
        text::lex_le_total(a.structure_type@, b.structure_type@);
    }

    proof fn transitive(a: Self, b: Self, c: Self) {
        if bb_le(c.bb, a.bb) {
            text::lex_le_transitive(a.structure_type@, b.structure_type@, c.structure_type@);
        }
    }

    fn at_most(&self, other: &Self) -> (r: bool) {
        if self.bb[0] != other.bb[0] {
            self.bb[0] < other.bb[0]
        } else if self.bb[1] != other.bb[1] {
            self.bb[1] < other.bb[1]
        } else if self.bb[2] != other.bb[2] {
            self.bb[2] < other.bb[2]
        } else if self.bb[3] != other.bb[3] {
            self.bb[3] < other.bb[3]
        } else {
            text::at_most(self.structure_type.as_str(), other.structure_type.as_str())
        }
    }
}

/// The smaller of two numbers
pub open spec fn smaller(a: i32, b: i32) -> i32 {
    if a <= b {
        a
    } else {
        b
    }
}

/// The larger of two numbers
pub open spec fn larger(a: i32, b: i32) -> i32 {
    if a >= b {
        a
    } else {
        b
    }
}

/// A bounding box extended with an NBT `[minX, minY, minZ, maxX, maxY, maxZ]`
pub open spec fn extended(acc: Option<[i32; 4]>, arr: Seq<i32>) -> Option<[i32; 4]> {
    if arr.len() < 6 {
        acc
    } else {
        match acc {
            None => Some([arr[0], arr[2], arr[3], arr[5]]),
            Some(bb) => Some(
                [
                    smaller(bb[0], arr[0]),
                    smaller(bb[1], arr[2]),
                    larger(bb[2], arr[3]),
                    larger(bb[3], arr[5]),
                ],
            ),
        }
    }
}

/// Extends a bounding box accumulator with an NBT `[minX, minY, minZ, maxX, maxY, maxZ]`
pub fn union_bb(acc: &mut Option<[i32; 4]>, arr: &Vec<i32>)
    ensures
        *final(acc) == extended(*old(acc), arr@),
{
    if arr.len() < 6 {
        return;
    }
    let (min_x, min_z, max_x, max_z): (i32, i32, i32, i32) = (arr[0], arr[2], arr[3], arr[5]);
    let bb: [i32; 4] = match *acc {
        None => [min_x, min_z, max_x, max_z],
        Some(bb) => [
            if bb[0] <= min_x {
                bb[0]
            } else {
                min_x
            },
            if bb[1] <= min_z {
                bb[1]
            } else {
                min_z
            },
            if bb[2] >= max_x {
                bb[2]
            } else {
                max_x
            },
            if bb[3] >= max_z {
                bb[3]
            } else {
                max_z
            },
        ],
    };
    *acc = Some(bb);
}

/// The bounding box of `acc` and the pieces of a structure
pub open spec fn pieces_bb(acc: Option<[i32; 4]>, children: Seq<de::StructurePiece>) -> Option<
    [i32; 4],
>
    decreases children.len(),
{
    if children.len() == 0 {
        acc
    } else {
        let before = pieces_bb(acc, children.drop_last());
        match children.last().bb {
            Some(bb) => extended(before, bb@),
            None => before,
        }
    }
}

/// The bounding box of a structure's start and its pieces
pub open spec fn start_bb(start: de::StructureStart) -> Option<[i32; 4]> {
    pieces_bb(
        match start.bb {
            Some(bb) => extended(None, bb@),
            None => None,
        },
        start.children@,
    )
}

/// Computes a structure's full bounding box from its start and child pieces
pub fn structure_bb(start: &de::StructureStart) -> (r: Option<[i32; 4]>)
    ensures
        r == start_bb(*start),
{
    let mut acc: Option<[i32; 4]> = None;
    if let Some(bb) = &start.bb {
        union_bb(&mut acc, bb);
    }
    let ghost first = acc;
    let mut i: usize = 0;
    assert(start.children@.take(0) =~= Seq::<de::StructurePiece>::empty());
    while i < start.children.len()
        invariant
            i <= start.children.len(),
            acc == pieces_bb(first, start.children@.take(i as int)),
        decreases start.children.len() - i,
    {
        assert(start.children@.take(i + 1).drop_last() =~= start.children@.take(i as int));
        if let Some(bb) = &start.children[i].bb {
            union_bb(&mut acc, bb);
        }
        i = i + 1;
    }
    assert(start.children@.take(i as int) =~= start.children@);
    acc
}

/// A bounding box covers an NBT `[minX, minY, minZ, maxX, maxY, maxZ]`
pub open spec fn covers(bb: [i32; 4], arr: Seq<i32>) -> bool {
    bb[0] <= arr[0] && bb[1] <= arr[2] && bb[2] >= arr[3] && bb[3] >= arr[5]
}

/// A bounding box as read from NBT is the given one
pub open spec fn is_box(bb: Option<Vec<i32>>, arr: Seq<i32>) -> bool {
    match bb {
        Some(v) => v@ == arr && arr.len() >= 6,
        None => false,
    }
}

/// The start of a structure or one of its pieces has the given bounding box
pub open spec fn has_box(start: de::StructureStart, arr: Seq<i32>) -> bool {
    ||| is_box(start.bb, arr)
    ||| exists|i: int|
        0 <= i < start.children@.len() && is_box((#[trigger] start.children@[i]).bb, arr)
}

/// A side of a bounding box as read from NBT
pub open spec fn side(arr: Seq<i32>, k: int) -> i32 {
    if k == 0 {
        arr[0]
    } else if k == 1 {
        arr[2]
    } else if k == 2 {
        arr[3]
    } else {
        arr[5]
    }
}

/// The bounding box of a structure covers those of its start and of all of its pieces
pub proof fn structure_bb_covers(start: de::StructureStart, arr: Seq<i32>)
    requires
        has_box(start, arr),
    ensures
        start_bb(start) matches Some(bb) && covers(bb, arr),
{
    let first = match start.bb {
        Some(bb) => extended(None, bb@),
        None => None,
    };
    if is_box(start.bb, arr) {
        pieces_bb_grows(first, start.children@, arr);
    } else {
        let i = choose|i: int|
            0 <= i < start.children@.len() && is_box((#[trigger] start.children@[i]).bb, arr);
        pieces_bb_covers(first, start.children@, i);
    }
}

/// The bounding box of a structure is no larger than needed: each of its sides is that of
/// the start or of a piece
pub proof fn structure_bb_tight(start: de::StructureStart, k: int)
    requires
        start_bb(start) is Some,
        0 <= k < 4,
    ensures
        exists|arr: Seq<i32>| #[trigger] has_box(start, arr) && side(arr, k) == start_bb(start)->0[k],
{
    let first = match start.bb {
        Some(bb) => extended(None, bb@),
        None => None,
    };
    let i = pieces_bb_touches(first, start.children@, k);
    if i < 0 {
        assert(has_box(start, start.bb->0@));
    } else {
        assert(has_box(start, start.children@[i].bb->0@));
    }
}

proof fn pieces_bb_touches(
    acc: Option<[i32; 4]>,
    children: Seq<de::StructurePiece>,
    k: int,
) -> (i: int)
    requires
        pieces_bb(acc, children) is Some,
        0 <= k < 4,
    ensures
        i < children.len(),
        i < 0 ==> acc is Some && acc->0[k] == pieces_bb(acc, children)->0[k],
        i >= 0 ==> is_box(children[i].bb, children[i].bb->0@) && side(children[i].bb->0@, k)
            == pieces_bb(acc, children)->0[k],
    decreases children.len(),
{
    if children.len() == 0 {
        -1
    } else {
        let before = pieces_bb(acc, children.drop_last());
        let last = children.len() - 1;
        if before is Some && before->0[k] == pieces_bb(acc, children)->0[k] {
            let i = pieces_bb_touches(acc, children.drop_last(), k);
            if i >= 0 {
                assert(children.drop_last()[i] == children[i]);
            }
            i
        } else {
            last
        }
    }
}

proof fn pieces_bb_grows(
    acc: Option<[i32; 4]>,
    children: Seq<de::StructurePiece>,
    arr: Seq<i32>,
)
    requires
        acc matches Some(bb) && covers(bb, arr),
    ensures
        pieces_bb(acc, children) matches Some(bb) && covers(bb, arr),
    decreases children.len(),
{
    if children.len() > 0 {
        pieces_bb_grows(acc, children.drop_last(), arr);
    }
}

proof fn pieces_bb_covers(acc: Option<[i32; 4]>, children: Seq<de::StructurePiece>, i: int)
    requires
        0 <= i < children.len(),
        children[i].bb matches Some(bb) && bb@.len() >= 6,
    ensures
        pieces_bb(acc, children) matches Some(bb) && covers(bb, children[i].bb->0@),
    decreases children.len(),
{
    if i < children.len() - 1 {
        assert(children.drop_last()[i] == children[i]);
        pieces_bb_covers(acc, children.drop_last(), i);
    }
}

/// The structures starting in a chunk
pub open spec fn structure_starts(chunk: de::Chunk) -> Seq<(String, de::StructureStart)> {
    let structures = match chunk.chunk {
        de::ChunkVariant::V1_18 { .. } => chunk.structures,
        de::ChunkVariant::V0 { level } => level.structures,
    };
    match structures {
        Some(s) => s.starts@,
        None => Seq::empty(),
    }
}

/// The structures of a chunk that have a bounding box and are not marked as invalid
pub open spec fn valid_structures(starts: Seq<(String, de::StructureStart)>) -> Seq<
    (Seq<char>, [i32; 4]),
>
    decreases starts.len(),
{
    if starts.len() == 0 {
        Seq::empty()
    } else {
        let before = valid_structures(starts.drop_last());
        let (name, start) = starts.last();
        let invalid = start.id matches Some(id) && id@ == "INVALID"@;
        match start_bb(start) {
            Some(bb) => if invalid {
                before
            } else {
                before.push((name@, bb))
            },
            None => before,
        }
    }
}

/// Extracts the generated structures starting in a Java [chunk](de::Chunk)
pub fn java_chunk_structures(chunk: &de::Chunk) -> (r: Vec<Structure>)
    ensures
        structures_view(r@) == valid_structures(structure_starts(*chunk)),
{
    let structures = match &chunk.chunk {
        de::ChunkVariant::V1_18 { .. } => &chunk.structures,
        de::ChunkVariant::V0 { level } => &level.structures,
    };
    let mut result: Vec<Structure> = Vec::new();
    assert(structures_view(result@) =~= Seq::<(Seq<char>, [i32; 4])>::empty());
    let structures = match structures {
        Some(structures) => structures,
        None => return result,
    };
    let starts = &structures.starts;
    let mut i: usize = 0;
    assert(starts@.take(0) =~= Seq::<(String, de::StructureStart)>::empty());
    while i < starts.len()
        invariant
            i <= starts.len(),
            structures_view(result@) == valid_structures(starts@.take(i as int)),
        decreases starts.len() - i,
    {
        assert(starts@.take(i + 1).drop_last() =~= starts@.take(i as int));
        let start = &starts[i].1;
        let invalid = match &start.id {
            Some(id) => text::same(id.as_str(), "INVALID"),
            None => false,
        };
        if !invalid {
            if let Some(bb) = structure_bb(start) {
                let ghost before = result@;
                result.push(Structure { structure_type: starts[i].0.clone(), bb });
                assert(structures_view(result@) =~= structures_view(before).push(
                    (starts@[i as int].0@, bb),
                ));
            }
        }
        i = i + 1;
    }
    assert(starts@.take(i as int) =~= starts@);
    result
}

/// A notable feature that a block shows
pub enum Feature {
    /// A rail of any kind
    Rail,
    /// Farmland
    Farmland,
    /// A nether portal block
    NetherPortal,
    /// An end portal block
    EndPortal,
}

/// The feature that a block ID stands for
pub open spec fn feature_of(id: Seq<char>) -> Option<Feature> {
    let name = local_name(id);
    if name == "rail"@ || text::finishes_with(name, "_rail"@) {
        Some(Feature::Rail)
    } else if name == "farmland"@ {
        Some(Feature::Farmland)
    } else if name == "nether_portal"@ {
        Some(Feature::NetherPortal)
    } else if name == "end_portal"@ {
        Some(Feature::EndPortal)
    } else {
        None
    }
}

/// Per-chunk overlay information
///
/// Collected while a chunk is visited; merged into a [DimensionOverlay]
/// afterwards using the chunk's absolute coordinates.
#[derive(Debug, Clone, Copy, PartialEq, Eq, Structural)]
pub struct ChunkOverlayInfo {
    /// Cumulative number of ticks players have spent in the chunk
    pub inhabited_time: i64,
    /// The chunk's block palette contains a rail
    pub rail: bool,
    /// The chunk's block palette contains farmland
    pub farmland: bool,
    /// The chunk's block palette contains a nether portal block
    pub nether_portal: bool,
    /// The chunk's block palette contains an end portal block
    pub end_portal: bool,
    /// The chunk is a slime chunk (Java Edition, derived from the world seed)
    pub slime: bool,
    /// Number of player-placed block entities in the chunk
    pub built: u32,
}

impl Default for ChunkOverlayInfo {
    fn default() -> (r: Self)
        ensures
            r == (ChunkOverlayInfo {
                inhabited_time: 0,
                rail: false,
                farmland: false,
                nether_portal: false,
                end_portal: false,
                slime: false,
                built: 0,
            }),
    {
        ChunkOverlayInfo {
            inhabited_time: 0,
            rail: false,
            farmland: false,
            nether_portal: false,
            end_portal: false,
            slime: false,
            built: 0,
        }
    }
}

impl ChunkOverlayInfo {
    /// The information after a block ID has been found in the palette
    pub open spec fn noting(self, id: Seq<char>) -> Self {
        match feature_of(id) {
            Some(Feature::Rail) => ChunkOverlayInfo { rail: true, ..self },
            Some(Feature::Farmland) => ChunkOverlayInfo { farmland: true, ..self },
            Some(Feature::NetherPortal) => ChunkOverlayInfo { nether_portal: true, ..self },
            Some(Feature::EndPortal) => ChunkOverlayInfo { end_portal: true, ..self },
            None => self,
        }
    }

    /// Updates the feature flags for a single block ID found in the palette
    pub fn note_block(&mut self, id: &str)
        ensures
            *final(self) == old(self).noting(id@),
    {
        let name = strip_namespace(id);
        if text::same(name, "rail") || text::ends_with(name, "_rail") {
            self.rail = true;
        } else if text::same(name, "farmland") {
            self.farmland = true;
        } else if text::same(name, "nether_portal") {
            self.nether_portal = true;
        } else if text::same(name, "end_portal") {
            self.end_portal = true;
        }
    }

    /// Updates the feature flags for all block IDs of a palette
    fn note_palette(&mut self, palette: &Vec<de::BlockStatePaletteEntry>, Ghost(seen): Ghost<
        Seq<Seq<char>>,
    >)
        requires
            shows_features(*old(self), seen),
        ensures
            shows_features(*final(self), seen + palette_names(palette@)),
            final(self).inhabited_time == old(self).inhabited_time,
            final(self).slime == old(self).slime,
            final(self).built == old(self).built,
    {
        let mut i: usize = 0;
        assert(seen + palette_names(palette@.take(0)) =~= seen);
        while i < palette.len()
            invariant
                i <= palette.len(),
                shows_features(*self, seen + palette_names(palette@.take(i as int))),
                self.inhabited_time == old(self).inhabited_time,
                self.slime == old(self).slime,
                self.built == old(self).built,
            decreases palette.len() - i,
        {
            let ghost names = seen + palette_names(palette@.take(i as int));
            let ghost before = *self;
            let name = &palette[i].name;
            self.note_block(name.as_str());
            proof {
                feature_noted(before, names, name@);
            }
            assert(seen + palette_names(palette@.take(i + 1)) =~= names.push(name@));
            i = i + 1;
        }
        assert(palette@.take(i as int) =~= palette@);
    }
}

/// A list of block IDs has one that stands for a feature
pub open spec fn has_feature(names: Seq<Seq<char>>, feature: Feature) -> bool {
    exists|i: int| 0 <= i < names.len() && feature_of(#[trigger] names[i]) == Some(feature)
}

/// The feature flags are those of a list of block IDs
pub open spec fn shows_features(info: ChunkOverlayInfo, names: Seq<Seq<char>>) -> bool {
    &&& info.rail == has_feature(names, Feature::Rail)
    &&& info.farmland == has_feature(names, Feature::Farmland)
    &&& info.nether_portal == has_feature(names, Feature::NetherPortal)
    &&& info.end_portal == has_feature(names, Feature::EndPortal)
}

proof fn has_feature_pushed(names: Seq<Seq<char>>, name: Seq<char>, feature: Feature)
    ensures
        has_feature(names.push(name), feature) == (has_feature(names, feature) || feature_of(name)
            == Some(feature)),
{
    let all = names.push(name);
    if has_feature(names, feature) {
        let i = choose|i: int|
            0 <= i < names.len() && feature_of(#[trigger] names[i]) == Some(feature);
        assert(all[i] == names[i]);
    }
    if feature_of(name) == Some(feature) {
        assert(all[names.len() as int] == name);
    }
    if has_feature(all, feature) {
        let i = choose|i: int| 0 <= i < all.len() && feature_of(#[trigger] all[i]) == Some(feature);
        if i < names.len() {
            assert(all[i] == names[i]);
        }
    }
}

/// Noting the block IDs of a list one after the other shows the features of the list
pub proof fn feature_noted(info: ChunkOverlayInfo, names: Seq<Seq<char>>, name: Seq<char>)
    requires
        shows_features(info, names),
    ensures
        shows_features(info.noting(name), names.push(name)),
{
    has_feature_pushed(names, name, Feature::Rail);
    has_feature_pushed(names, name, Feature::Farmland);
    has_feature_pushed(names, name, Feature::NetherPortal);
    has_feature_pushed(names, name, Feature::EndPortal);
}

/// The block IDs of a palette
pub open spec fn palette_names(palette: Seq<de::BlockStatePaletteEntry>) -> Seq<Seq<char>> {
    palette.map_values(|e: de::BlockStatePaletteEntry| e.name@)
}

/// The block IDs of all sections of a chunk
pub open spec fn names_v1_18(sections: Seq<de::SectionV1_18Variant>) -> Seq<Seq<char>>
    decreases sections.len(),
{
    if sections.len() == 0 {
        Seq::empty()
    } else {
        let before = names_v1_18(sections.drop_last());
        match sections.last() {
            de::SectionV1_18Variant::V1_18 { palette } => before + palette_names(palette@),
            de::SectionV1_18Variant::Empty => before,
        }
    }
}

/// The block IDs of all sections of a chunk in an older format
///
/// Numeric sections do not carry a named block palette.
pub open spec fn names_v0(sections: Seq<de::SectionV0Variant>) -> Seq<Seq<char>>
    decreases sections.len(),
{
    if sections.len() == 0 {
        Seq::empty()
    } else {
        let before = names_v0(sections.drop_last());
        match sections.last() {
            de::SectionV0Variant::V1_13 { palette } => before + palette_names(palette@),
            _ => before,
        }
    }
}

/// The number of player-placed block entities in a list
pub open spec fn built_count(entities: Seq<de::BlockEntity>) -> nat
    decreases entities.len(),
{
    if entities.len() == 0 {
        0
    } else {
        built_count(entities.drop_last()) + if built_name(local_name(entities.last().id@)) {
            1nat
        } else {
            0
        }
    }
}

/// The overlay information of a chunk
pub open spec fn shows_chunk(info: ChunkOverlayInfo, chunk: de::Chunk) -> bool {
    &&& !info.slime
    &&& match chunk.chunk {
        de::ChunkVariant::V1_18 { sections, block_entities } => {
            &&& info.inhabited_time == (match chunk.inhabited_time {
                Some(t) => t,
                None => 0,
            })
            &&& shows_features(info, names_v1_18(sections@))
            &&& info.built == built_count(block_entities@) % 0x1_0000_0000
        },
        de::ChunkVariant::V0 { level } => {
            &&& info.inhabited_time == (match (chunk.inhabited_time, level.inhabited_time) {
                (Some(t), _) => t,
                (None, Some(t)) => t,
                (None, None) => 0,
            })
            &&& shows_features(info, names_v0(level.sections@))
            &&& info.built == built_count(level.tile_entities@) % 0x1_0000_0000
        },
    }
}

/// Extracts [ChunkOverlayInfo] from a deserialized Java [chunk](de::Chunk)
pub fn java_chunk_overlay_info(chunk: &de::Chunk) -> (r: ChunkOverlayInfo)
    ensures
        shows_chunk(r, *chunk),
{
    let mut info = ChunkOverlayInfo::default();
    match &chunk.chunk {
        de::ChunkVariant::V1_18 { sections, block_entities } => {
            info.inhabited_time = match chunk.inhabited_time {
                Some(time) => time,
                None => 0,
            };
            let mut i: usize = 0;
            assert(sections@.take(0) =~= Seq::<de::SectionV1_18Variant>::empty());
            let ghost time = info.inhabited_time;
            while i < sections.len()
                invariant
                    i <= sections.len(),
                    shows_features(info, names_v1_18(sections@.take(i as int))),
                    info.inhabited_time == time,
                    !info.slime,
                decreases sections.len() - i,
            {
                assert(sections@.take(i + 1).drop_last() =~= sections@.take(i as int));
                let ghost seen = names_v1_18(sections@.take(i as int));
                if let de::SectionV1_18Variant::V1_18 { palette } = &sections[i] {
                    info.note_palette(palette, Ghost(seen));
                }
                i = i + 1;
            }
            assert(sections@.take(i as int) =~= sections@);
            info.built = count_built(block_entities);
        },
        de::ChunkVariant::V0 { level } => {
            info.inhabited_time = match (chunk.inhabited_time, level.inhabited_time) {
                (Some(time), _) => time,
                (None, Some(time)) => time,
                (None, None) => 0,
            };
            let sections = &level.sections;
            let mut i: usize = 0;
            assert(sections@.take(0) =~= Seq::<de::SectionV0Variant>::empty());
            let ghost time = info.inhabited_time;
            while i < sections.len()
                invariant
                    i <= sections.len(),
                    shows_features(info, names_v0(sections@.take(i as int))),
                    info.inhabited_time == time,
                    !info.slime,
                decreases sections.len() - i,
            {
                assert(sections@.take(i + 1).drop_last() =~= sections@.take(i as int));
                let ghost seen = names_v0(sections@.take(i as int));
                // Pre-1.13 numeric sections do not carry a named block palette,
                // so feature detection is not available for them.
                if let de::SectionV0Variant::V1_13 { palette } = &sections[i] {
                    info.note_palette(palette, Ghost(seen));
                }
                i = i + 1;
            }
            assert(sections@.take(i as int) =~= sections@);
            info.built = count_built(&level.tile_entities);
        },
    }
    info
}

/// Counts the player-placed block entities in a list
pub fn count_built(entities: &Vec<de::BlockEntity>) -> (r: u32)
    ensures
        r == built_count(entities@) % 0x1_0000_0000,
{
    let mut count: usize = 0;
    let mut i: usize = 0;
    assert(entities@.take(0) =~= Seq::<de::BlockEntity>::empty());
    while i < entities.len()
        invariant
            count <= i <= entities.len(),
            count == built_count(entities@.take(i as int)),
        decreases entities.len() - i,
    {
        assert(entities@.take(i + 1).drop_last() =~= entities@.take(i as int));
        if is_built_block_entity(entities[i].id.as_str()) {
            count = count + 1;
        }
        i = i + 1;
    }
    assert(entities@.take(i as int) =~= entities@);
    (count as u64 % 0x1_0000_0000) as u32
}

/// A block entity ID or block ID with or without the `minecraft:` namespace
pub open spec fn names_block(id: Seq<char>, name: Seq<char>) -> bool {
    id == name || id == "minecraft:"@ + name
}

proof fn local_name_is(id: Seq<char>, name: Seq<char>)
    requires
        !text::begins_with(name, "minecraft:"@),
    ensures
        local_name(id) == name <==> names_block(id, name),
{
    let prefix = "minecraft:"@;
    if text::begins_with(id, prefix) {
        assert(id =~= prefix + id.skip(prefix.len() as int));
    }
    assert((prefix + name).take(prefix.len() as int) =~= prefix);
    assert((prefix + name).skip(prefix.len() as int) =~= name);
}

/// A block is a rail: its ID is that of the plain rail, or ends like those of all other rails
pub open spec fn is_rail(id: Seq<char>) -> bool {
    names_block(id, "rail"@) || text::finishes_with(id, "_rail"@)
}

proof fn rail_suffix(id: Seq<char>)
    ensures
        text::finishes_with(local_name(id), "_rail"@) == text::finishes_with(id, "_rail"@),
{
    reveal_strlit("minecraft:");
    reveal_strlit("_rail");
    let prefix = "minecraft:"@;
    let suffix = "_rail"@;
    if text::begins_with(id, prefix) {
        let name = local_name(id);
        assert(id.take(10)[9] == id[9]);
        assert(id[9] == ':');
        if text::finishes_with(id, suffix) && id.len() < 15 {
            let at = 9 - (id.len() - 5);
            assert(id.skip(id.len() - 5)[at] == id[9]);
            assert(suffix[at] != ':');
        }
        if name.len() >= 5 {
            assert(name.skip(name.len() - 5) =~= id.skip(id.len() - 5));
        }
    }
}

#[verifier::spinoff_prover]
proof fn feature_ids(id: Seq<char>)
    ensures
        feature_of(id) == Some(Feature::Rail) <==> is_rail(id),
        feature_of(id) == Some(Feature::Farmland) <==> names_block(id, "farmland"@),
        feature_of(id) == Some(Feature::NetherPortal) <==> names_block(id, "nether_portal"@),
        feature_of(id) == Some(Feature::EndPortal) <==> names_block(id, "end_portal"@),
{
    reveal_strlit("minecraft:");
    reveal_strlit("rail");
    reveal_strlit("_rail");
    reveal_strlit("farmland");
    reveal_strlit("nether_portal");
    reveal_strlit("end_portal");
    assert("farmland"@[0] == 'f' && "nether_portal"@[0] == 'n' && "end_portal"@[0] == 'e');
    assert("minecraft:"@[0] == 'm');
    assert(!text::begins_with("rail"@, "minecraft:"@));
    assert(!text::begins_with("farmland"@, "minecraft:"@));
    assert(!text::begins_with("end_portal"@, "minecraft:"@)) by {
        assert("end_portal"@.take(10)[0] == 'e');
    }
    assert(!text::begins_with("nether_portal"@, "minecraft:"@)) by {
        assert("nether_portal"@.take(10)[0] == 'n');
    }
    local_name_is(id, "rail"@);
    local_name_is(id, "farmland"@);
    local_name_is(id, "nether_portal"@);
    local_name_is(id, "end_portal"@);
    rail_suffix(id);
    let name = local_name(id);
    if text::finishes_with(name, "_rail"@) {
        assert(name.skip(name.len() - 5)[4] == name[name.len() - 1]);
        assert("_rail"@[4] == 'l' && name[name.len() - 1] == 'l');
        assert(name.skip(name.len() - 5)[3] == name[name.len() - 2]);
        assert("_rail"@[3] == 'i' && name[name.len() - 2] == 'i');
        assert("farmland"@[7] == 'd');
        assert("nether_portal"@[11] == 'a');
        assert("end_portal"@[8] == 'a');
    }
}

/// The block ID at place `j` of the palette of section `i`, if the section has one
pub open spec fn palette_id(sections: Seq<de::SectionV1_18Variant>, i: int, j: int) -> Option<
    Seq<char>,
> {
    if 0 <= i < sections.len() {
        match sections[i] {
            de::SectionV1_18Variant::V1_18 { palette } => if 0 <= j < palette@.len() {
                Some(palette@[j].name@)
            } else {
                None
            },
            de::SectionV1_18Variant::Empty => None,
        }
    } else {
        None
    }
}

/// The block ID at place `j` of the palette of section `i` of an older chunk, if the section
/// has one
pub open spec fn older_palette_id(sections: Seq<de::SectionV0Variant>, i: int, j: int) -> Option<
    Seq<char>,
> {
    if 0 <= i < sections.len() {
        match sections[i] {
            de::SectionV0Variant::V1_13 { palette } => if 0 <= j < palette@.len() {
                Some(palette@[j].name@)
            } else {
                None
            },
            _ => None,
        }
    } else {
        None
    }
}

proof fn palette_id_listed(sections: Seq<de::SectionV1_18Variant>, i: int, j: int) -> (n: int)
    requires
        palette_id(sections, i, j) is Some,
    ensures
        0 <= n < names_v1_18(sections).len(),
        names_v1_18(sections)[n] == palette_id(sections, i, j)->0,
    decreases sections.len(),
{
    let before = names_v1_18(sections.drop_last());
    if i < sections.len() - 1 {
        assert(palette_id(sections.drop_last(), i, j) == palette_id(sections, i, j));
        palette_id_listed(sections.drop_last(), i, j)
    } else {
        before.len() + j
    }
}

proof fn listed_in_palette(sections: Seq<de::SectionV1_18Variant>, n: int) -> (r: (int, int))
    requires
        0 <= n < names_v1_18(sections).len(),
    ensures
        palette_id(sections, r.0, r.1) == Some(names_v1_18(sections)[n]),
    decreases sections.len(),
{
    let before = names_v1_18(sections.drop_last());
    if n < before.len() {
        let r = listed_in_palette(sections.drop_last(), n);
        assert(palette_id(sections.drop_last(), r.0, r.1) == palette_id(sections, r.0, r.1));
        r
    } else {
        (sections.len() - 1, n - before.len())
    }
}

proof fn older_palette_id_listed(sections: Seq<de::SectionV0Variant>, i: int, j: int) -> (n: int)
    requires
        older_palette_id(sections, i, j) is Some,
    ensures
        0 <= n < names_v0(sections).len(),
        names_v0(sections)[n] == older_palette_id(sections, i, j)->0,
    decreases sections.len(),
{
    let before = names_v0(sections.drop_last());
    if i < sections.len() - 1 {
        assert(older_palette_id(sections.drop_last(), i, j) == older_palette_id(sections, i, j));
        older_palette_id_listed(sections.drop_last(), i, j)
    } else {
        before.len() + j
    }
}

proof fn listed_in_older_palette(sections: Seq<de::SectionV0Variant>, n: int) -> (r: (int, int))
    requires
        0 <= n < names_v0(sections).len(),
    ensures
        older_palette_id(sections, r.0, r.1) == Some(names_v0(sections)[n]),
    decreases sections.len(),
{
    let before = names_v0(sections.drop_last());
    if n < before.len() {
        let r = listed_in_older_palette(sections.drop_last(), n);
        assert(older_palette_id(sections.drop_last(), r.0, r.1) == older_palette_id(
            sections,
            r.0,
            r.1,
        ));
        r
    } else {
        (sections.len() - 1, n - before.len())
    }
}

proof fn features_listed(info: ChunkOverlayInfo, names: Seq<Seq<char>>)
    requires
        shows_features(info, names),
    ensures
        info.rail <==> exists|n: int| 0 <= n < names.len() && is_rail(#[trigger] names[n]),
        info.farmland <==> exists|n: int|
            0 <= n < names.len() && names_block(#[trigger] names[n], "farmland"@),
        info.nether_portal <==> exists|n: int|
            0 <= n < names.len() && names_block(#[trigger] names[n], "nether_portal"@),
        info.end_portal <==> exists|n: int|
            0 <= n < names.len() && names_block(#[trigger] names[n], "end_portal"@),
{
    assert forall|n: int| 0 <= n < names.len() implies {
        &&& feature_of(#[trigger] names[n]) == Some(Feature::Rail) <==> is_rail(names[n])
        &&& feature_of(names[n]) == Some(Feature::Farmland) <==> names_block(
            names[n],
            "farmland"@,
        )
        &&& feature_of(names[n]) == Some(Feature::NetherPortal) <==> names_block(
            names[n],
            "nether_portal"@,
        )
        &&& feature_of(names[n]) == Some(Feature::EndPortal) <==> names_block(
            names[n],
            "end_portal"@,
        )
    } by {
        feature_ids(names[n]);
    }
}

/// The overlay information of a chunk shows what its sections hold
///
/// A feature is shown if and only if the palette of some section holds a block that stands for
/// it, whichever section that is. The inhabited time is the one that is stored, and the chunk
/// is not marked as a slime chunk.
pub proof fn all_sections_searched(info: ChunkOverlayInfo, chunk: de::Chunk)
    requires
        shows_chunk(info, chunk),
    ensures
        !info.slime,
        chunk.inhabited_time matches Some(time) ==> info.inhabited_time == time,
        chunk.chunk matches de::ChunkVariant::V1_18 { sections, .. } ==> {
            &&& chunk.inhabited_time is None ==> info.inhabited_time == 0
            &&& info.rail <==> exists|i: int, j: int|
                (#[trigger] palette_id(sections@, i, j)) matches Some(id) && is_rail(id)
            &&& info.farmland <==> exists|i: int, j: int|
                (#[trigger] palette_id(sections@, i, j)) matches Some(id) && names_block(
                    id,
                    "farmland"@,
                )
            &&& info.nether_portal <==> exists|i: int, j: int|
                (#[trigger] palette_id(sections@, i, j)) matches Some(id) && names_block(
                    id,
                    "nether_portal"@,
                )
            &&& info.end_portal <==> exists|i: int, j: int|
                (#[trigger] palette_id(sections@, i, j)) matches Some(id) && names_block(
                    id,
                    "end_portal"@,
                )
        },
        chunk.chunk matches de::ChunkVariant::V0 { level } ==> {
            &&& chunk.inhabited_time is None ==> match level.inhabited_time {
                Some(time) => info.inhabited_time == time,
                None => info.inhabited_time == 0,
            }
            &&& info.rail <==> exists|i: int, j: int|
                (#[trigger] older_palette_id(level.sections@, i, j)) matches Some(id) && is_rail(id)
            &&& info.farmland <==> exists|i: int, j: int|
                (#[trigger] older_palette_id(level.sections@, i, j)) matches Some(id)
                    && names_block(id, "farmland"@)
            &&& info.nether_portal <==> exists|i: int, j: int|
                (#[trigger] older_palette_id(level.sections@, i, j)) matches Some(id)
                    && names_block(id, "nether_portal"@)
            &&& info.end_portal <==> exists|i: int, j: int|
                (#[trigger] older_palette_id(level.sections@, i, j)) matches Some(id)
                    && names_block(id, "end_portal"@)
        },
{
    match chunk.chunk {
        de::ChunkVariant::V1_18 { sections, .. } => {
            let names = names_v1_18(sections@);
            features_listed(info, names);
            assert forall|n: int| 0 <= n < names.len() implies exists|i: int, j: int|
                palette_id(sections@, i, j) == Some(#[trigger] names[n]) by {
                let r = listed_in_palette(sections@, n);
                assert(palette_id(sections@, r.0, r.1) == Some(names[n]));
            }
            assert forall|i: int, j: int| (#[trigger] palette_id(
                sections@,
                i,
                j,
            )) is Some implies exists|n: int|
                0 <= n < names.len() && #[trigger] names[n] == palette_id(sections@, i, j)->0 by {
                let n = palette_id_listed(sections@, i, j);
                assert(names[n] == palette_id(sections@, i, j)->0);
            }
        },
        de::ChunkVariant::V0 { level } => {
            let names = names_v0(level.sections@);
            features_listed(info, names);
            assert forall|n: int| 0 <= n < names.len() implies exists|i: int, j: int|
                older_palette_id(level.sections@, i, j) == Some(#[trigger] names[n]) by {
                let r = listed_in_older_palette(level.sections@, n);
                assert(older_palette_id(level.sections@, r.0, r.1) == Some(names[n]));
            }
            assert forall|i: int, j: int| (#[trigger] older_palette_id(
                level.sections@,
                i,
                j,
            )) is Some implies exists|n: int|
                0 <= n < names.len() && #[trigger] names[n] == older_palette_id(
                    level.sections@,
                    i,
                    j,
                )->0 by {
                let n = older_palette_id_listed(level.sections@, i, j);
                assert(names[n] == older_palette_id(level.sections@, i, j)->0);
            }
        },
    }
}

/// Accumulated overlay data for a single dimension
///
/// Each entry stores absolute chunk coordinates (block coordinate `>> 4`).
#[derive(Debug)]
pub struct DimensionOverlay {
    /// `[chunkX, chunkZ, inhabitedTimeTicks]` for chunks with ticks > 0
    pub inhabited: Vec<(i32, i32, i64)>,
    /// `[chunkX, chunkZ]` of chunks containing a rail
    pub rail: Vec<(i32, i32)>,
    /// `[chunkX, chunkZ]` of chunks containing farmland
    pub farmland: Vec<(i32, i32)>,
    /// `[chunkX, chunkZ]` of chunks containing a nether portal block
    pub nether_portal: Vec<(i32, i32)>,
    /// `[chunkX, chunkZ]` of chunks containing an end portal block
    pub end_portal: Vec<(i32, i32)>,
    /// `[chunkX, chunkZ]` of slime chunks
    pub slime: Vec<(i32, i32)>,
    /// `[chunkX, chunkZ, score]` for chunks with a "built" score > 0
    pub built: Vec<(i32, i32, u32)>,
    /// Generated structures (written to a separate `structures.json`)
    pub structures: Vec<Structure>,
}

/// What a [DimensionOverlay] holds
#[verifier::ext_equal]
pub struct OverlayLists {
    /// Chunks with ticks > 0
    pub inhabited: Seq<(i32, i32, i64)>,
    /// Chunks containing a rail
    pub rail: Seq<(i32, i32)>,
    /// Chunks containing farmland
    pub farmland: Seq<(i32, i32)>,
    /// Chunks containing a nether portal block
    pub nether_portal: Seq<(i32, i32)>,
    /// Chunks containing an end portal block
    pub end_portal: Seq<(i32, i32)>,
    /// Slime chunks
    pub slime: Seq<(i32, i32)>,
    /// Chunks with a "built" score > 0
    pub built: Seq<(i32, i32, u32)>,
    /// Generated structures
    pub structures: Seq<Structure>,
}

impl View for DimensionOverlay {
    type V = OverlayLists;

    open spec fn view(&self) -> OverlayLists {
        OverlayLists {
            inhabited: self.inhabited@,
            rail: self.rail@,
            farmland: self.farmland@,
            nether_portal: self.nether_portal@,
            end_portal: self.end_portal@,
            slime: self.slime@,
            built: self.built@,
            structures: self.structures@,
        }
    }
}

/// A list with an item added, if the chunk belongs in it
pub open spec fn added<T>(list: Seq<T>, belongs: bool, item: T) -> Seq<T> {
    if belongs {
        list.push(item)
    } else {
        list
    }
}

impl OverlayLists {
    /// No chunks and structures
    pub open spec fn none() -> Self {
        OverlayLists {
            inhabited: Seq::empty(),
            rail: Seq::empty(),
            farmland: Seq::empty(),
            nether_portal: Seq::empty(),
            end_portal: Seq::empty(),
            slime: Seq::empty(),
            built: Seq::empty(),
            structures: Seq::empty(),
        }
    }

    /// The lists with a chunk added
    pub open spec fn with_chunk(self, x: i32, z: i32, info: ChunkOverlayInfo) -> Self {
        OverlayLists {
            inhabited: added(self.inhabited, info.inhabited_time > 0, (x, z, info.inhabited_time)),
            rail: added(self.rail, info.rail, (x, z)),
            farmland: added(self.farmland, info.farmland, (x, z)),
            nether_portal: added(self.nether_portal, info.nether_portal, (x, z)),
            end_portal: added(self.end_portal, info.end_portal, (x, z)),
            slime: added(self.slime, info.slime, (x, z)),
            built: added(self.built, info.built > 0, (x, z, info.built)),
            structures: self.structures,
        }
    }

    /// The lists, each followed by the one of another dimension overlay
    pub open spec fn followed_by(self, other: Self) -> Self {
        OverlayLists {
            inhabited: self.inhabited + other.inhabited,
            rail: self.rail + other.rail,
            farmland: self.farmland + other.farmland,
            nether_portal: self.nether_portal + other.nether_portal,
            end_portal: self.end_portal + other.end_portal,
            slime: self.slime + other.slime,
            built: self.built + other.built,
            structures: self.structures + other.structures,
        }
    }

    /// The lists in order
    pub open spec fn in_order(self) -> Self {
        OverlayLists {
            inhabited: sorting::sorted(self.inhabited),
            rail: sorting::sorted(self.rail),
            farmland: sorting::sorted(self.farmland),
            nether_portal: sorting::sorted(self.nether_portal),
            end_portal: sorting::sorted(self.end_portal),
            slime: sorting::sorted(self.slime),
            built: sorting::sorted(self.built),
            structures: sorting::sorted(self.structures),
        }
    }
}

/// Merging is associative: chunks may be merged in groups
pub proof fn merge_associative(a: OverlayLists, b: OverlayLists, c: OverlayLists)
    ensures
        a.followed_by(b).followed_by(c) == a.followed_by(b.followed_by(c)),
        a.followed_by(OverlayLists::none()) == a,
        OverlayLists::none().followed_by(a) == a,
{
    assert(a.followed_by(b).followed_by(c) =~= a.followed_by(b.followed_by(c)));
    assert(a.followed_by(OverlayLists::none()) =~= a);
    assert(OverlayLists::none().followed_by(a) =~= a);
}

/// The sorted output does not depend on the order in which parts were merged, as long as
/// no two entries of a list stand for the same chunk or structure
pub proof fn output_deterministic(a: OverlayLists, b: OverlayLists)
    requires
        sorting::strict(a.inhabited + b.inhabited),
        sorting::strict(a.built + b.built),
        sorting::strict(a.structures + b.structures),
    ensures
        a.followed_by(b).in_order() == b.followed_by(a).in_order(),
{
    list_deterministic(a.inhabited, b.inhabited);
    list_deterministic(a.rail, b.rail);
    list_deterministic(a.farmland, b.farmland);
    list_deterministic(a.nether_portal, b.nether_portal);
    list_deterministic(a.end_portal, b.end_portal);
    list_deterministic(a.slime, b.slime);
    list_deterministic(a.built, b.built);
    list_deterministic(a.structures, b.structures);
}

proof fn list_deterministic<T: Ordered>(a: Seq<T>, b: Seq<T>)
    requires
        sorting::strict(a + b),
    ensures
        sorting::sorted(a + b) == sorting::sorted(b + a),
{
    sorting::joined_either_way(a, b);
    sorting::sorted_deterministic(a + b, b + a);
}

impl Default for DimensionOverlay {
    fn default() -> (r: Self)
        ensures
            r@ == OverlayLists::none(),
    {
        let r = DimensionOverlay {
            inhabited: Vec::new(),
            rail: Vec::new(),
            farmland: Vec::new(),
            nether_portal: Vec::new(),
            end_portal: Vec::new(),
            slime: Vec::new(),
            built: Vec::new(),
            structures: Vec::new(),
        };
        assert(r@ =~= OverlayLists::none());
        r
    }
}

impl DimensionOverlay {
    /// Adds a chunk's overlay info at the given absolute chunk coordinates
    pub fn add(&mut self, chunk_x: i32, chunk_z: i32, info: &ChunkOverlayInfo)
        ensures
            final(self)@ == old(self)@.with_chunk(chunk_x, chunk_z, *info),
    {
        if info.inhabited_time > 0 {
            self.inhabited.push((chunk_x, chunk_z, info.inhabited_time));
        }
        if info.rail {
            self.rail.push((chunk_x, chunk_z));
        }
        if info.farmland {
            self.farmland.push((chunk_x, chunk_z));
        }
        if info.nether_portal {
            self.nether_portal.push((chunk_x, chunk_z));
        }
        if info.end_portal {
            self.end_portal.push((chunk_x, chunk_z));
        }
        if info.slime {
            self.slime.push((chunk_x, chunk_z));
        }
        if info.built > 0 {
            self.built.push((chunk_x, chunk_z, info.built));
        }
    }

    /// Merges another [DimensionOverlay] into this one
    pub fn merge(&mut self, other: DimensionOverlay)
        ensures
            final(self)@ == old(self)@.followed_by(other@),
    {
        let mut other = other;
        self.inhabited.append(&mut other.inhabited);
        self.rail.append(&mut other.rail);
        self.farmland.append(&mut other.farmland);
        self.nether_portal.append(&mut other.nether_portal);
        self.end_portal.append(&mut other.end_portal);
        self.slime.append(&mut other.slime);
        self.built.append(&mut other.built);
        self.structures.append(&mut other.structures);
    }

    /// Sorts all entries by chunk coordinates for deterministic output
    pub fn sort(&mut self)
        ensures
            final(self)@ == old(self)@.in_order(),
    {
        sorting::sort_in_place(&mut self.inhabited);
        sorting::sort_in_place(&mut self.rail);
        sorting::sort_in_place(&mut self.farmland);
        sorting::sort_in_place(&mut self.nether_portal);
        sorting::sort_in_place(&mut self.end_portal);
        sorting::sort_in_place(&mut self.slime);
        sorting::sort_in_place(&mut self.built);
        sorting::sort_in_place(&mut self.structures);
    }
}

/// Accumulated overlay data for all dimensions
#[derive(Debug)]
pub struct OverlayData {
    /// Overworld overlay data
    pub overworld: DimensionOverlay,
    /// Nether overlay data
    pub nether: DimensionOverlay,
    /// End overlay data
    pub end: DimensionOverlay,
}

/// A file or directory that overlay data is written to
#[derive(Debug, PartialEq, Eq)]
pub enum OverlayStep {
    /// Create a directory including all its parents
    CreateDir(String),
    /// Write the inhabited times
    Heatmap(String),
    /// Write the notable blocks and "built" scores
    Features(String),
}

impl View for OverlayStep {
    type V = (int, Seq<char>);

    /// The kind of the step, and the path
    open spec fn view(&self) -> (int, Seq<char>) {
        match self {
            OverlayStep::CreateDir(path) => (0, path@),
            OverlayStep::Heatmap(path) => (1, path@),
            OverlayStep::Features(path) => (2, path@),
        }
    }
}

/// The steps that write overlay data to directories
pub open spec fn overlay_steps(dirs: Seq<String>) -> Seq<(int, Seq<char>)>
    decreases dirs.len(),
{
    if dirs.len() == 0 {
        Seq::empty()
    } else {
        let dir = dirs.last()@;
        overlay_steps(dirs.drop_last()).push((0, dir)).push(
            (1, paths::joined(dir, "inhabited_heatmap.json"@)),
        ).push((2, paths::joined(dir, "block_features.json"@)))
    }
}

/// The kinds and paths of steps
pub open spec fn steps_view(steps: Seq<OverlayStep>) -> Seq<(int, Seq<char>)> {
    steps.map_values(|s: OverlayStep| s@)
}

impl Default for OverlayData {
    fn default() -> (r: Self)
        ensures
            forall|dim: Dimension| #[trigger] r.spec_dimension(dim)@ == OverlayLists::none(),
    {
        OverlayData {
            overworld: DimensionOverlay::default(),
            nether: DimensionOverlay::default(),
            end: DimensionOverlay::default(),
        }
    }
}

impl OverlayData {
    /// The data for a dimension
    pub open spec fn spec_dimension(&self, dim: Dimension) -> DimensionOverlay {
        match dim {
            Dimension::Overworld => self.overworld,
            Dimension::Nether => self.nether,
            Dimension::End => self.end,
        }
    }

    /// Returns the data for a dimension
    pub fn dimension(&self, dim: Dimension) -> (r: &DimensionOverlay)
        ensures
            *r == self.spec_dimension(dim),
    {
        match dim {
            Dimension::Overworld => &self.overworld,
            Dimension::Nether => &self.nether,
            Dimension::End => &self.end,
        }
    }

    /// Returns a mutable reference to the data for a dimension
    pub fn dimension_mut(&mut self, dim: Dimension) -> (r: &mut DimensionOverlay)
        ensures
            *r == old(self).spec_dimension(dim),
            final(self).spec_dimension(dim) == *final(r),
            forall|other: Dimension|
                other != dim ==> #[trigger] final(self).spec_dimension(other) == old(
                    self,
                ).spec_dimension(other),
    {
        match dim {
            Dimension::Overworld => &mut self.overworld,
            Dimension::Nether => &mut self.nether,
            Dimension::End => &mut self.end,
        }
    }

    /// Sorts all dimensions for deterministic output
    pub fn sort(&mut self)
        ensures
            forall|dim: Dimension| #[trigger]
                final(self).spec_dimension(dim)@ == old(self).spec_dimension(dim)@.in_order(),
    {
        self.overworld.sort();
        self.nether.sort();
        self.end.sort();
    }

    /// Returns the data in the order in which it is written, and the steps that write the
    /// `inhabited_heatmap.json` and `block_features.json` files into each of the given
    /// directories
    pub fn write(self, dirs: &Vec<String>) -> (r: (Self, Vec<OverlayStep>))
        ensures
            forall|dim: Dimension| #[trigger]
                r.0.spec_dimension(dim)@ == self.spec_dimension(dim)@.in_order(),
            steps_view(r.1@) == overlay_steps(dirs@),
    {
        let mut steps: Vec<OverlayStep> = Vec::new();
        let mut i: usize = 0;
        assert(dirs@.take(0) =~= Seq::<String>::empty());
        assert(steps_view(steps@) =~= overlay_steps(dirs@.take(0)));
        while i < dirs.len()
            invariant
                i <= dirs.len(),
                steps_view(steps@) == overlay_steps(dirs@.take(i as int)),
            decreases dirs.len() - i,
        {
            assert(dirs@.take(i + 1).drop_last() =~= dirs@.take(i as int));
            let dir = dirs[i].as_str();
            let ghost before = steps@;
            steps.push(OverlayStep::CreateDir(dir.to_owned()));
            steps.push(OverlayStep::Heatmap(paths::join(dir, "inhabited_heatmap.json")));
            steps.push(OverlayStep::Features(paths::join(dir, "block_features.json")));
            i = i + 1;
            assert(steps_view(steps@) =~= steps_view(before).push((0, dir@)).push(
                (1, paths::joined(dir@, "inhabited_heatmap.json"@)),
            ).push((2, paths::joined(dir@, "block_features.json"@))));
        }
        assert(dirs@.take(i as int) =~= dirs@);
        let mut sorted = self;
        sorted.sort();
        (sorted, steps)
    }
}

/// Returns the paths of the two overlay-data files in an overlay directory
pub fn emit_overlay_files(dir: &str) -> (r: (String, String))
    ensures
        r.0@ == paths::joined(dir@, "inhabited_heatmap.json"@),
        r.1@ == paths::joined(dir@, "block_features.json"@),
{
    (paths::join(dir, "inhabited_heatmap.json"), paths::join(dir, "block_features.json"))
}

/// Returns a copy of a list of structures
fn duplicate_all(structures: &Vec<Structure>) -> (r: Vec<Structure>)
    ensures
        r@ == structures@,
{
    let mut out: Vec<Structure> = Vec::new();
    let mut i: usize = 0;
    while i < structures.len()
        invariant
            i <= structures.len(),
            out@ == structures@.take(i as int),
        decreases structures.len() - i,
    {
        out.push(structures[i].duplicate());
        i = i + 1;
        assert(out@ =~= structures@.take(i as int));
    }
    assert(structures@.take(i as int) =~= structures@);
    out
}

/// Builds the sorted per-dimension structure map from collected overlay data
pub fn structures_by_dimension(overlays: &OverlayData) -> (r: Vec<(Dimension, Vec<Structure>)>)
    ensures
        r@.len() == 3,
        forall|i: int|
            0 <= i < 3 ==> {
                &&& (#[trigger] r@[i]).0 == Dimension::spec_all()[i]
                &&& r@[i].1@ == sorting::sorted(overlays.spec_dimension(r@[i].0).structures@)
            },
{
    let mut by_dimension: Vec<(Dimension, Vec<Structure>)> = Vec::new();
    let all = Dimension::all();
    let mut i: usize = 0;
    while i < 3
        invariant
            i <= 3,
            by_dimension@.len() == i,
            all@ == Dimension::spec_all(),
            forall|j: int|
                0 <= j < i ==> {
                    &&& (#[trigger] by_dimension@[j]).0 == Dimension::spec_all()[j]
                    &&& by_dimension@[j].1@ == sorting::sorted(
                        overlays.spec_dimension(by_dimension@[j].0).structures@,
                    )
                },
        decreases 3 - i,
    {
        let dim = all[i];
        let structures = duplicate_all(&overlays.dimension(dim).structures);
        by_dimension.push((dim, sorting::sort(structures)));
        i = i + 1;
    }
    by_dimension
}

/// The kinds of block entities that players build with
pub open spec fn built_kinds() -> Seq<Seq<char>> {
    seq![
        "chest"@,
        "trapped_chest"@,
        "barrel"@,
        "furnace"@,
        "blast_furnace"@,
        "smoker"@,
        "crafting_table"@,
        "enchanting_table"@,
        "hopper"@,
        "dropper"@,
        "dispenser"@,
        "anvil"@,
        "beacon"@,
        "brewing_stand"@,
        "jukebox"@,
        "lectern"@,
        "loom"@,
        "cartography_table"@,
        "stonecutter"@,
        "campfire"@,
        "soul_campfire"@,
    ]
}

proof fn built_kind_listed(name: Seq<char>)
    ensures
        built_name(name) <==> built_kinds().contains(name),
{
    let kinds = built_kinds();
    assert(kinds[0] == "chest"@);
    assert(kinds[1] == "trapped_chest"@);
    assert(kinds[2] == "barrel"@);
    assert(kinds[3] == "furnace"@);
    assert(kinds[4] == "blast_furnace"@);
    assert(kinds[5] == "smoker"@);
    assert(kinds[6] == "crafting_table"@);
    assert(kinds[7] == "enchanting_table"@);
    assert(kinds[8] == "hopper"@);
    assert(kinds[9] == "dropper"@);
    assert(kinds[10] == "dispenser"@);
    assert(kinds[11] == "anvil"@);
    assert(kinds[12] == "beacon"@);
    assert(kinds[13] == "brewing_stand"@);
    assert(kinds[14] == "jukebox"@);
    assert(kinds[15] == "lectern"@);
    assert(kinds[16] == "loom"@);
    assert(kinds[17] == "cartography_table"@);
    assert(kinds[18] == "stonecutter"@);
    assert(kinds[19] == "campfire"@);
    assert(kinds[20] == "soul_campfire"@);
    if built_name(name) {
        let i = choose|i: int| 0 <= i < 21 && kinds[i] == name;
        assert(kinds.contains(kinds[i]));
    }
}

/// The "built" score of a chunk is the number of its block entities of the kinds that players
/// build with, with or without namespace
pub proof fn built_entities_counted(info: ChunkOverlayInfo, chunk: de::Chunk)
    requires
        shows_chunk(info, chunk),
    ensures
        ({
            let entities = match chunk.chunk {
                de::ChunkVariant::V1_18 { block_entities, .. } => block_entities@,
                de::ChunkVariant::V0 { level } => level.tile_entities@,
            };
            info.built == entities.filter(
                |e: de::BlockEntity|
                    built_kinds().contains(text::without_prefix(e.id@, "minecraft:"@)),
            ).len() % 0x1_0000_0000
        }),
{
    match chunk.chunk {
        de::ChunkVariant::V1_18 { block_entities, .. } => built_filtered(block_entities@),
        de::ChunkVariant::V0 { level } => built_filtered(level.tile_entities@),
    }
}

proof fn built_filtered(entities: Seq<de::BlockEntity>)
    ensures
        built_count(entities) == entities.filter(
            |e: de::BlockEntity|
                built_kinds().contains(text::without_prefix(e.id@, "minecraft:"@)),
        ).len(),
    decreases entities.len(),
{
    reveal(Seq::filter);
    if entities.len() > 0 {
        built_filtered(entities.drop_last());
        built_kind_listed(local_name(entities.last().id@));
    }
}

/// A start of a structure is reported
pub open spec fn is_reported(start: (String, de::StructureStart)) -> bool {
    &&& start_bb(start.1) is Some
    &&& !(start.1.id matches Some(id) && id@ == "INVALID"@)
}

/// The structures of a chunk are those of its starts that have a bounding box and are not
/// marked as invalid: each of them once, in their order, under its type with its bounding box
///
/// Chunks in the format of 1.18 and later have their starts at the top level, older ones in
/// their `Level` element.
pub proof fn all_starts_reported(chunk: de::Chunk, result: Seq<Structure>)
    requires
        structures_view(result) == valid_structures(structure_starts(chunk)),
    ensures
        ({
            let structures = if chunk.chunk is V1_18 {
                chunk.structures
            } else {
                chunk.chunk->level.structures
            };
            match structures {
                Some(structures) => {
                    let reported = structures.starts@.filter(
                        |s: (String, de::StructureStart)| is_reported(s),
                    );
                    &&& result.len() == reported.len()
                    &&& forall|i: int|
                        0 <= i < result.len() ==> {
                            &&& (#[trigger] result[i]).structure_type@ == reported[i].0@
                            &&& start_bb(reported[i].1) == Some(result[i].bb)
                        }
                    &&& forall|i: int|
                        0 <= i < structures.starts@.len() && is_reported(
                            #[trigger] structures.starts@[i],
                        ) ==> exists|j: int|
                            0 <= j < result.len() && (#[trigger] result[j]).structure_type@
                                == structures.starts@[i].0@ && start_bb(structures.starts@[i].1)
                                == Some(result[j].bb)
                },
                None => result.len() == 0,
            }
        }),
{
    let structures = if chunk.chunk is V1_18 {
        chunk.structures
    } else {
        chunk.chunk->level.structures
    };
    assert(structures_view(result).len() == result.len());
    if let Some(structures) = structures {
        let starts = structures.starts@;
        let f = |s: (String, de::StructureStart)| is_reported(s);
        let reported = starts.filter(f);
        starts_filtered(starts);
        assert forall|i: int| 0 <= i < result.len() implies {
            &&& (#[trigger] result[i]).structure_type@ == reported[i].0@
            &&& start_bb(reported[i].1) == Some(result[i].bb)
        } by {
            assert(structures_view(result)[i] == result[i]@);
        }
        assert forall|i: int|
            0 <= i < starts.len() && is_reported(#[trigger] starts[i]) implies exists|j: int|
            0 <= j < result.len() && (#[trigger] result[j]).structure_type@ == starts[i].0@
                && start_bb(starts[i].1) == Some(result[j].bb) by {
            starts.lemma_filter_contains(f, i);
            let j = choose|j: int| 0 <= j < reported.len() && reported[j] == starts[i];
            assert(result[j].structure_type@ == starts[i].0@);
        }
    }
}

proof fn starts_filtered(starts: Seq<(String, de::StructureStart)>)
    ensures
        ({
            let reported = starts.filter(|s: (String, de::StructureStart)| is_reported(s));
            &&& valid_structures(starts).len() == reported.len()
            &&& forall|i: int|
                0 <= i < reported.len() ==> #[trigger] valid_structures(starts)[i] == (
                    reported[i].0@,
                    start_bb(reported[i].1)->0,
                ) && is_reported(reported[i])
        }),
    decreases starts.len(),
{
    reveal(Seq::filter);
    if starts.len() > 0 {
        starts_filtered(starts.drop_last());
    }
}

/// Adding a chunk lists it under each of its features and nowhere else, and keeps what was
/// listed before
pub proof fn chunk_listed(lists: OverlayLists, x: i32, z: i32, info: ChunkOverlayInfo)
    ensures
        ({
            let after = lists.with_chunk(x, z, info);
            &&& after.rail == lists.rail + Seq::new(
                if info.rail { 1nat } else { 0 },
                |i: int| (x, z),
            )
            &&& after.farmland == lists.farmland + Seq::new(
                if info.farmland { 1nat } else { 0 },
                |i: int| (x, z),
            )
            &&& after.nether_portal == lists.nether_portal + Seq::new(
                if info.nether_portal { 1nat } else { 0 },
                |i: int| (x, z),
            )
            &&& after.end_portal == lists.end_portal + Seq::new(
                if info.end_portal { 1nat } else { 0 },
                |i: int| (x, z),
            )
            &&& after.slime == lists.slime + Seq::new(
                if info.slime { 1nat } else { 0 },
                |i: int| (x, z),
            )
            &&& after.inhabited == lists.inhabited + Seq::new(
                if info.inhabited_time > 0 { 1nat } else { 0 },
                |i: int| (x, z, info.inhabited_time),
            )
            &&& after.built == lists.built + Seq::new(
                if info.built > 0 { 1nat } else { 0 },
                |i: int| (x, z, info.built),
            )
            &&& after.structures == lists.structures
        }),
{
    let after = lists.with_chunk(x, z, info);
    assert(after.rail =~= lists.rail + Seq::new(
        if info.rail { 1nat } else { 0 },
        |i: int| (x, z),
    ));
    assert(after.farmland =~= lists.farmland + Seq::new(
        if info.farmland { 1nat } else { 0 },
        |i: int| (x, z),
    ));
    assert(after.nether_portal =~= lists.nether_portal + Seq::new(
        if info.nether_portal { 1nat } else { 0 },
        |i: int| (x, z),
    ));
    assert(after.end_portal =~= lists.end_portal + Seq::new(
        if info.end_portal { 1nat } else { 0 },
        |i: int| (x, z),
    ));
    assert(after.slime =~= lists.slime + Seq::new(
        if info.slime { 1nat } else { 0 },
        |i: int| (x, z),
    ));
    assert(after.inhabited =~= lists.inhabited + Seq::new(
        if info.inhabited_time > 0 { 1nat } else { 0 },
        |i: int| (x, z, info.inhabited_time),
    ));
    assert(after.built =~= lists.built + Seq::new(
        if info.built > 0 { 1nat } else { 0 },
        |i: int| (x, z, info.built),
    ));
}

/// Merging keeps the entries of both sides in each list, and no others
pub proof fn merged_entries_kept(a: OverlayLists, b: OverlayLists)
    ensures
        ({
            let both = a.followed_by(b);
            &&& both.inhabited.to_multiset() == a.inhabited.to_multiset().add(
                b.inhabited.to_multiset(),
            )
            &&& both.rail.to_multiset() == a.rail.to_multiset().add(b.rail.to_multiset())
            &&& both.farmland.to_multiset() == a.farmland.to_multiset().add(
                b.farmland.to_multiset(),
            )
            &&& both.nether_portal.to_multiset() == a.nether_portal.to_multiset().add(
                b.nether_portal.to_multiset(),
            )
            &&& both.end_portal.to_multiset() == a.end_portal.to_multiset().add(
                b.end_portal.to_multiset(),
            )
            &&& both.slime.to_multiset() == a.slime.to_multiset().add(b.slime.to_multiset())
            &&& both.built.to_multiset() == a.built.to_multiset().add(b.built.to_multiset())
            &&& both.structures.to_multiset() == a.structures.to_multiset().add(
                b.structures.to_multiset(),
            )
        }),
{
    vstd::seq_lib::lemma_multiset_commutative(a.inhabited, b.inhabited);
    vstd::seq_lib::lemma_multiset_commutative(a.rail, b.rail);
    vstd::seq_lib::lemma_multiset_commutative(a.farmland, b.farmland);
    vstd::seq_lib::lemma_multiset_commutative(a.nether_portal, b.nether_portal);
    vstd::seq_lib::lemma_multiset_commutative(a.end_portal, b.end_portal);
    vstd::seq_lib::lemma_multiset_commutative(a.slime, b.slime);
    vstd::seq_lib::lemma_multiset_commutative(a.built, b.built);
    vstd::seq_lib::lemma_multiset_commutative(a.structures, b.structures);
}

/// Ordering keeps the entries of each list, and brings each list in order
pub proof fn ordered_entries_kept(lists: OverlayLists)
    ensures
        ({
            let ordered = lists.in_order();
            &&& ordered.inhabited.to_multiset() == lists.inhabited.to_multiset()
            &&& ordered.rail.to_multiset() == lists.rail.to_multiset()
            &&& ordered.farmland.to_multiset() == lists.farmland.to_multiset()
            &&& ordered.nether_portal.to_multiset() == lists.nether_portal.to_multiset()
            &&& ordered.end_portal.to_multiset() == lists.end_portal.to_multiset()
            &&& ordered.slime.to_multiset() == lists.slime.to_multiset()
            &&& ordered.built.to_multiset() == lists.built.to_multiset()
            &&& ordered.structures.to_multiset() == lists.structures.to_multiset()
            &&& sorting::is_sorted(ordered.inhabited)
            &&& sorting::is_sorted(ordered.rail)
            &&& sorting::is_sorted(ordered.farmland)
            &&& sorting::is_sorted(ordered.nether_portal)
            &&& sorting::is_sorted(ordered.end_portal)
            &&& sorting::is_sorted(ordered.slime)
            &&& sorting::is_sorted(ordered.built)
            &&& sorting::is_sorted(ordered.structures)
        }),
{
    sorting::sorted_properties(lists.inhabited);
    sorting::sorted_properties(lists.rail);
    sorting::sorted_properties(lists.farmland);
    sorting::sorted_properties(lists.nether_portal);
    sorting::sorted_properties(lists.end_portal);
    sorting::sorted_properties(lists.slime);
    sorting::sorted_properties(lists.built);
    sorting::sorted_properties(lists.structures);
}

/// Overlay data is written to each directory: the directory is created first, and then both of
/// its files are written
pub proof fn each_directory_written(steps: Seq<OverlayStep>, dirs: Seq<String>, i: int)
    requires
        steps_view(steps) == overlay_steps(dirs),
        0 <= i < dirs.len(),
    ensures
        steps.len() == 3 * dirs.len(),
        steps[3 * i] matches OverlayStep::CreateDir(path) && path@ == dirs[i]@,
        steps[3 * i + 1] matches OverlayStep::Heatmap(path) && path@ == paths::joined(
            dirs[i]@,
            "inhabited_heatmap.json"@,
        ),
        steps[3 * i + 2] matches OverlayStep::Features(path) && path@ == paths::joined(
            dirs[i]@,
            "block_features.json"@,
        ),
{
    overlay_step_places(dirs, i);
    let view = steps_view(steps);
    assert(view.len() == steps.len());
    assert(view[3 * i] == steps[3 * i]@);
    assert(view[3 * i + 1] == steps[3 * i + 1]@);
    assert(view[3 * i + 2] == steps[3 * i + 2]@);
}

proof fn overlay_step_places(dirs: Seq<String>, i: int)
    requires
        0 <= i < dirs.len(),
    ensures
        overlay_steps(dirs).len() == 3 * dirs.len(),
        overlay_steps(dirs)[3 * i] == (0int, dirs[i]@),
        overlay_steps(dirs)[3 * i + 1] == (
            1int,
            paths::joined(dirs[i]@, "inhabited_heatmap.json"@),
        ),
        overlay_steps(dirs)[3 * i + 2] == (2int, paths::joined(dirs[i]@, "block_features.json"@)),
    decreases dirs.len(),
{
    let rest = dirs.drop_last();
    if i < rest.len() {
        overlay_step_places(rest, i);
    } else if rest.len() > 0 {
        overlay_step_places(rest, 0);
    } else {
        assert(overlay_steps(rest) =~= Seq::<(int, Seq<char>)>::empty());
    }
}

/// Sorted structures rise by their bounding boxes, compared side by side, and those with the
/// same bounding box by their types
pub proof fn structures_rise(s: Seq<Structure>, i: int, j: int, k: int)
    requires
        sorting::is_sorted(s),
        0 <= i <= j < s.len(),
        0 <= k <= 4,
        forall|l: int| 0 <= l < k ==> s[i].bb[l] == s[j].bb[l],
    ensures
        k < 4 ==> s[i].bb[k] <= s[j].bb[k],
        k == 4 ==> text::lex_le(s[i].structure_type@, s[j].structure_type@),
{
    assert(Structure::precedes(s[i], s[j]));
    if k > 0 {
        assert(s[i].bb[0] == s[j].bb[0]);
    }
    if k > 1 {
        assert(s[i].bb[1] == s[j].bb[1]);
    }
    if k > 2 {
        assert(s[i].bb[2] == s[j].bb[2]);
    }
    if k > 3 {
        assert(s[i].bb[3] == s[j].bb[3]);
    }
}

/// There are three dimensions, each with a key and data of its own
pub proof fn dimensions_listed(data: OverlayData)
    ensures
        Dimension::spec_all() == seq![Dimension::Overworld, Dimension::Nether, Dimension::End],
        Dimension::Overworld.spec_key() == "overworld"@,
        Dimension::Nether.spec_key() == "nether"@,
        Dimension::End.spec_key() == "end"@,
        data.spec_dimension(Dimension::Overworld) == data.overworld,
        data.spec_dimension(Dimension::Nether) == data.nether,
        data.spec_dimension(Dimension::End) == data.end,
{
}

} // verus!
