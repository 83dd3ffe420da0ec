//! Common data types and functions used by multiple generation steps

use crate::args::Args;
use crate::fs::Timestamp;
use crate::layer;
use crate::overlay::Dimension;
use crate::paths;
use crate::patterns;
use crate::resource::UnknownBlockMode;
use crate::text;
use crate::types::{ChunkArray, CHUNKS_IN_REGION};
use regex::{Regex, RegexSet};
use std::collections::{BTreeMap, BTreeSet};
use vstd::prelude::*;
use vstd::string::*;

verus! {

/// MinedMap processed region data version number
///
/// Increase when the generation of processed regions from region data changes
/// (usually because of updated resource data)
pub const REGION_FILE_META_VERSION: u32 = 13;

/// MinedMap map tile data version number
///
/// Increase when the generation of map tiles from processed regions changes
/// (because of code changes in tile generation)
pub const MAP_FILE_META_VERSION: u32 = 0;

/// MinedMap heightmap tile data version number
///
/// Increase when the generation of heightmap tiles from processed regions
/// changes (because of code changes in heightmap tile generation)
pub const HEIGHTMAP_FILE_META_VERSION: u32 = 0;

/// MinedMap biome map tile data version number
///
/// Increase when the generation of biome map tiles changes (because of code
/// changes or updated biome color data)
pub const BIOMEMAP_FILE_META_VERSION: u32 = 0;

/// MinedMap cave map tile data version number
///
/// Increase when the generation of cave map tiles changes (because of code
/// changes or updated block color data)
pub const CAVEMAP_FILE_META_VERSION: u32 = 0;

/// MinedMap mob-spawn tile data version number
///
/// Increase when the generation of mob-spawn tiles changes
pub const MOBSPAWN_FILE_META_VERSION: u32 = 0;

/// MinedMap contour tile data version number
///
/// Increase when the generation of contour tiles changes
pub const CONTOUR_FILE_META_VERSION: u32 = 0;

/// MinedMap textured tile data version number
///
/// Increase when the generation of textured tiles changes (because of code
/// changes in textured tile generation)
pub const TEXTURED_FILE_META_VERSION: u32 = 0;

/// MinedMap lightmap data version number
///
/// Increase when the generation of lightmap tiles from region data changes
/// (usually because of updated resource data)
pub const LIGHTMAP_FILE_META_VERSION: u32 = 10;

/// MinedMap mipmap data version number
///
/// Increase when the mipmap generation changes (this should not happen)
pub const MIPMAP_FILE_META_VERSION: u32 = 0;

/// MinedMap processed entity data version number
///
/// Increase when entity collection changes because of code changes.
pub const ENTITIES_FILE_META_VERSION: u32 = 4;

/// MinedMap per-region overlay/marker cache version number
///
/// Increase when the cached per-region overlay, POI or mob data layout changes,
/// to invalidate stale `--since` caches.
pub const EMIT_CACHE_META_VERSION: u32 = 0;

/// Coordinate pair of a generated tile
///
/// Each tile corresponds to one Minecraft region file
#[derive(Debug, Clone, Copy, PartialEq, Eq, PartialOrd, Ord, Hash, Structural)]
pub struct TileCoords {
    /// The X coordinate
    pub x: i32,
    /// The Z coordinate
    pub z: i32,
}

impl TileCoords {
    /// Returns the coordinates as a text of the form `(x, z)`
    pub fn describe(self) -> (r: String)
        ensures
            r@ == "("@ + text::decimal(self.x as int) + ", "@ + text::decimal(self.z as int) + ")"@,
    {
        let mut out: String = "(".to_owned();
        text::push_decimal(&mut out, self.x);
        out.append(", ");
        text::push_decimal(&mut out, self.z);
        out.append(")");
        out
    }
}

/// Set of tile coordinates
///
/// Used to store list of populated tiles for each mipmap level in the
/// viewer metadata file.
#[derive(Debug)]
pub struct TileCoordMap(pub BTreeMap<i32, BTreeSet<i32>>);

impl TileCoordMap {
    /// Checks whether the map contains a given coordinate pair
    pub fn contains(&self, coords: TileCoords) -> (r: bool)
        ensures
            r == (self.0@.contains_key(coords.z) && self.0@[coords.z]@.contains(coords.x)),
    {
        broadcast use vstd::std_specs::btree::group_btree_axioms;

        match self.0.get(&coords.z) {
            Some(xs) => xs.contains(&coords.x),
            None => false,
        }
    }
}

/// Data structure for storing chunk data between processing and rendering steps
#[derive(Debug)]
pub struct ProcessedChunk {
    /// Block type data
    pub blocks: Box<layer::BlockArray>,
    /// Biome data
    pub biomes: Box<layer::BiomeArray>,
    /// Block height/depth data
    pub depths: Box<layer::DepthArray>,
}

/// Data structure for storing region data between processing and rendering steps
#[derive(Debug)]
pub struct ProcessedRegion {
    /// List of biomes used in the region
    ///
    /// Indexed by [ProcessedChunk] biome data
    pub biome_list: Vec<u32>,
    /// Processed chunk data
    pub chunks: ChunkArray<Option<Box<ProcessedChunk>>>,
}

impl Default for ProcessedRegion {
    /// Creates a region without processed chunks
    fn default() -> (r: Self)
        ensures
            r.biome_list@ == Seq::<u32>::empty(),
            r.chunks.wf(),
            forall|i: int| 0 <= i < r.chunks@.len() ==> #[trigger] r.chunks@[i] is None,
    {
        let mut items: Vec<Option<Box<ProcessedChunk>>> = Vec::new();
        let mut i: usize = 0;
        while i < CHUNKS_IN_REGION
            invariant
                i <= CHUNKS_IN_REGION,
                items@.len() == i,
                forall|j: int| 0 <= j < i ==> #[trigger] items@[j] is None,
            decreases CHUNKS_IN_REGION - i,
        {
            items.push(None);
            i = i + 1;
        }
        ProcessedRegion { biome_list: Vec::new(), chunks: ChunkArray { items } }
    }
}

/// Data structure for storing entity data between processing and collection steps, where `E`
/// is the type of a block entity
#[derive(Debug)]
pub struct ProcessedEntities<E> {
    /// List of block entities
    pub block_entities: Vec<E>,
}

impl<E> Default for ProcessedEntities<E> {
    /// Creates a list without block entities
    fn default() -> (r: Self)
        ensures
            r.block_entities@ == Seq::<E>::empty(),
    {
        ProcessedEntities { block_entities: Vec::new() }
    }
}

/// The filename of a region with a file extension
pub open spec fn filename_of(coords: TileCoords, ext: Seq<char>) -> Seq<char> {
    "r."@ + text::decimal(coords.x as int) + "."@ + text::decimal(coords.z as int) + "."@ + ext
}

/// Derives a filename from region coordinates and a file extension
///
/// Can be used for input regions, processed data or rendered tiles
pub fn coord_filename(coords: TileCoords, ext: &str) -> (r: String)
    ensures
        r@ == filename_of(coords, ext@),
{
    let mut name: String = "r.".to_owned();
    text::push_decimal(&mut name, coords.x);
    name.append(".");
    text::push_decimal(&mut name, coords.z);
    name.append(".");
    name.append(ext);
    name
}

/// Converts a (possibly negative) Unix timestamp in seconds to a [Timestamp]
pub fn unix_to_systemtime(ts: i64) -> (r: Timestamp)
    ensures
        r == ts * 1_000_000_000,
{
    ts as i128 * 1_000_000_000
}

/// Tile kind corresponding to a map layer
#[derive(Debug, Clone, Copy, PartialEq, Eq, Structural)]
pub enum TileKind {
    /// Regular map tile contains block colors
    MapTile,
    /// Lightmap tile for illumination layer
    Lightmap,
    /// Heightmap tile for the topographic layer
    Heightmap,
    /// Biome map tile for the biome/climate layer
    Biomemap,
    /// Cave map tile for the underground layer
    Cavemap,
    /// Mob-spawn (spawn-proofing) tile
    Mobspawn,
    /// Contour (elevation lines) tile
    Contourmap,
    /// High-resolution textured map tile
    Textured,
}

impl TileKind {
    /// The output directory of tiles of this kind
    pub open spec fn spec_prefix(self) -> Seq<char> {
        match self {
            TileKind::MapTile => "map"@,
            TileKind::Lightmap => "light"@,
            TileKind::Heightmap => "height"@,
            TileKind::Biomemap => "biome"@,
            TileKind::Cavemap => "cave"@,
            TileKind::Mobspawn => "mobspawn"@,
            TileKind::Contourmap => "contour"@,
            TileKind::Textured => "textured"@,
        }
    }

    /// Returns the output directory of tiles of this kind
    pub fn prefix(self) -> (r: &'static str)
        ensures
            r@ == self.spec_prefix(),
    {
        match self {
            TileKind::MapTile => "map",
            TileKind::Lightmap => "light",
            TileKind::Heightmap => "height",
            TileKind::Biomemap => "biome",
            TileKind::Cavemap => "cave",
            TileKind::Mobspawn => "mobspawn",
            TileKind::Contourmap => "contour",
            TileKind::Textured => "textured",
        }
    }
}

/// How unrecognized (for example modded) blocks are rendered
#[derive(Debug, Clone, Copy, PartialEq, Eq, Structural)]
pub enum UnknownBlocks {
    /// Treat unknown blocks as transparent (do not render them)
    Hide,
    /// Render unknown blocks in a neutral gray
    Gray,
    /// Render unknown blocks in a stable color derived from their name
    Color,
}

impl UnknownBlocks {
    /// The way in which the layers treat unknown blocks
    pub open spec fn spec_mode(self) -> UnknownBlockMode {
        match self {
            UnknownBlocks::Hide => UnknownBlockMode::Hide,
            UnknownBlocks::Gray => UnknownBlockMode::Gray,
            UnknownBlocks::Color => UnknownBlockMode::Color,
        }
    }
}

impl Default for UnknownBlocks {
    fn default() -> (r: Self)
        ensures
            r == UnknownBlocks::Hide,
    {
        UnknownBlocks::Hide
    }
}

impl From<UnknownBlocks> for UnknownBlockMode {
    fn from(value: UnknownBlocks) -> (r: Self) {
        match value {
            UnknownBlocks::Hide => UnknownBlockMode::Hide,
            UnknownBlocks::Gray => UnknownBlockMode::Gray,
            UnknownBlocks::Color => UnknownBlockMode::Color,
        }
    }
}

impl vstd::std_specs::convert::FromSpecImpl<UnknownBlocks> for UnknownBlockMode {
    open spec fn obeys_from_spec() -> bool {
        true
    }

    open spec fn from_spec(value: UnknownBlocks) -> Self {
        value.spec_mode()
    }
}

/// Edition of the input Minecraft save data
#[derive(Debug, Clone, Copy, PartialEq, Eq, Structural)]
pub enum Edition {
    /// Auto-detect the edition from the input directory layout
    Auto,
    /// Java Edition (Anvil region files)
    Java,
    /// Bedrock Edition (LevelDB database)
    Bedrock,
}

impl Default for Edition {
    fn default() -> (r: Self)
        ensures
            r == Edition::Auto,
    {
        Edition::Auto
    }
}

impl Edition {
    /// The concrete edition, where `bedrock_marker` tells whether there is a `db/CURRENT`
    /// file
    pub open spec fn resolved(self, bedrock_marker: bool) -> Edition {
        match self {
            Edition::Auto => if bedrock_marker {
                Edition::Bedrock
            } else {
                Edition::Java
            },
            other => other,
        }
    }

    /// Resolves [Edition::Auto] to a concrete edition based on the input directory
    ///
    /// Bedrock Edition is detected by the presence of a `db/CURRENT` file;
    /// anything else is treated as Java Edition.
    pub fn resolve(self, bedrock_marker: bool) -> (r: Edition)
        ensures
            r == self.resolved(bedrock_marker),
            r != Edition::Auto,
    {
        match self {
            Edition::Auto => if bedrock_marker {
                Edition::Bedrock
            } else {
                Edition::Java
            },
            other => other,
        }
    }
}

/// `WorldGenSettings` element of level.dat, used to read the world seed (1.16+)
#[derive(Debug, Clone, Copy, PartialEq, Eq)]
pub struct SeedWorldGenSettings {
    /// World seed
    pub seed: Option<i64>,
}

/// `Data` element of level.dat, reduced to the world seed fields
#[derive(Debug, Clone, Copy, PartialEq, Eq)]
pub struct SeedData {
    /// World seed (pre-1.16)
    pub random_seed: Option<i64>,
    /// World generation settings containing the seed (1.16+)
    pub world_gen_settings: Option<SeedWorldGenSettings>,
}

/// The seed in a level.dat: that of the world generation settings, or else the older one
pub open spec fn seed_in(data: SeedData) -> Option<i64> {
    match data.world_gen_settings {
        Some(settings) => match settings.seed {
            Some(seed) => Some(seed),
            None => data.random_seed,
        },
        None => data.random_seed,
    }
}

/// The seed of a world, where `data` and `old_data` are its `level.dat` and its
/// `level.dat_old`, if they can be read
pub open spec fn world_seed(data: Option<SeedData>, old_data: Option<SeedData>) -> Option<i64> {
    match (data, old_data) {
        (Some(d), _) => seed_in(d),
        (None, Some(d)) => seed_in(d),
        (None, None) => None,
    }
}

/// Format of generated map tiles
#[derive(Debug, Clone, Copy, PartialEq, Eq, Structural)]
pub enum ImageFormat {
    /// Generate PNG images
    Png,
    /// Generate WebP images
    Webp,
}

impl Default for ImageFormat {
    fn default() -> (r: Self)
        ensures
            r == ImageFormat::Png,
    {
        ImageFormat::Png
    }
}

/// The text of an optional string
pub open spec fn opt_text(s: Option<String>) -> Option<Seq<char>> {
    match s {
        Some(t) => Some(t@),
        None => None,
    }
}

/// Returns a copy of an optional string
fn copy_opt(s: &Option<String>) -> (r: Option<String>)
    ensures
        opt_text(r) == opt_text(*s),
{
    match s {
        Some(t) => Some(t.clone()),
        None => None,
    }
}

/// Returns a copy of a list of strings
fn copy_all(v: &Vec<String>) -> (r: Vec<String>)
    ensures
        patterns::texts(r@) == patterns::texts(v@),
{
    let mut out: Vec<String> = Vec::new();
    let mut i: usize = 0;
    assert(patterns::texts(out@) =~= patterns::texts(v@.take(0)));
    while i < v.len()
        invariant
            i <= v.len(),
            patterns::texts(out@) == patterns::texts(v@.take(i as int)),
        decreases v.len() - i,
    {
        let ghost before = out@;
        out.push(v[i].clone());
        assert(patterns::texts(out@) =~= patterns::texts(before).push(v@[i as int]@));
        i = i + 1;
        assert(patterns::texts(out@) =~= patterns::texts(v@.take(i as int)));
    }
    assert(v@.take(i as int) =~= v@);
    out
}

/// Reasons why command line arguments are not valid
#[derive(Debug, Clone, Copy, PartialEq, Eq, Structural)]
pub enum ConfigError {
    /// Failed to parse sign patterns
    SignPatterns,
    /// Failed to parse sign transforms
    SignTransforms(patterns::TransformError),
}

/// What there is to be found out about the input directory
#[derive(Debug, Clone, Copy)]
pub struct Probe {
    /// Whether the directory of the overworld in the modern layout has region files
    pub overworld_regions: bool,
    /// Whether the overworld POI directory of the modern layout exists
    pub poi_dir: bool,
    /// Whether the overworld entity directory of the modern layout exists
    pub entity_dir: bool,
    /// Whether the nether directory of the modern layout has region files
    pub nether_regions: bool,
    /// Whether the end directory of the modern layout has region files
    pub end_regions: bool,
    /// Whether there is a `db/CURRENT` file
    pub bedrock_marker: bool,
    /// `level.dat`, if it can be read
    pub level_dat: Option<SeedData>,
    /// `level.dat_old`, if it can be read
    pub level_dat_old: Option<SeedData>,
}

/// The paths that a [Probe] is about
#[derive(Debug)]
pub struct ProbePaths {
    /// Region directory of the overworld in the modern layout
    pub overworld_regions: String,
    /// POI directory of the overworld in the modern layout
    pub poi_dir: String,
    /// Entity directory of the overworld in the modern layout
    pub entity_dir: String,
    /// Region directory of the nether in the modern layout
    pub nether_regions: String,
    /// Region directory of the end in the modern layout
    pub end_regions: String,
    /// File that marks Bedrock Edition
    pub bedrock_marker: String,
    /// `level.dat` file
    pub level_dat: String,
    /// `level.dat_old` file
    pub level_dat_old: String,
}

/// The path of the modern layout if it is there, or else that of the legacy layout
pub open spec fn detected(
    input_dir: Seq<char>,
    modern: Seq<char>,
    legacy: Seq<char>,
    modern_found: bool,
) -> Seq<char> {
    if modern_found {
        paths::joined(input_dir, modern)
    } else {
        paths::joined(input_dir, legacy)
    }
}

/// An output-relative path with the dimension subdirectory inserted
pub open spec fn dim_joined(
    output_dir: Seq<char>,
    dim_subdir: Seq<char>,
    rest: Seq<char>,
) -> Seq<char> {
    if dim_subdir.len() == 0 {
        paths::joined(output_dir, rest)
    } else {
        paths::joined(paths::joined(output_dir, dim_subdir), rest)
    }
}

/// The output subdirectory of a dimension
pub open spec fn subdir_of(dimension: Dimension) -> Seq<char> {
    match dimension {
        Dimension::Overworld => ""@,
        Dimension::Nether => "nether"@,
        Dimension::End => "end"@,
    }
}

/// The directory of a dimension in the modern layout
pub open spec fn modern_dim(dimension: Dimension) -> Seq<char> {
    match dimension {
        Dimension::Overworld => "overworld"@,
        Dimension::Nether => "the_nether"@,
        Dimension::End => "the_end"@,
    }
}

/// The directory of a dimension in the legacy layout
pub open spec fn legacy_dim(dimension: Dimension) -> Seq<char> {
    match dimension {
        Dimension::Overworld => ""@,
        Dimension::Nether => "DIM-1"@,
        Dimension::End => "DIM1"@,
    }
}

/// A per-dimension input subdirectory of the modern layout
pub open spec fn modern_sub(modern_dim: Seq<char>, sub: Seq<char>) -> Seq<char> {
    "dimensions/minecraft/"@ + modern_dim + "/"@ + sub
}

/// A per-dimension input subdirectory of the legacy layout
pub open spec fn legacy_sub(legacy_dim: Seq<char>, sub: Seq<char>) -> Seq<char> {
    legacy_dim + "/"@ + sub
}

/// Common configuration based on command line arguments
#[derive(Debug)]
pub struct Config {
    /// Resolved edition of the input save data
    pub edition: Edition,
    /// Output subdirectory for the current dimension (empty for the overworld)
    pub dim_subdir: String,
    /// Whether to also render the nether dimension
    pub render_nether: bool,
    /// Whether to also render the end dimension
    pub render_end: bool,
    /// Path of input nether region directory
    pub nether_region_dir: String,
    /// Path of input end region directory
    pub end_region_dir: String,
    /// Path of the input Minecraft save directory
    pub input_dir: String,
    /// Directory to emit overlay data to, if requested
    pub emit_overlays: Option<String>,
    /// Directory to emit per-player data to, if requested
    pub emit_player_data: Option<String>,
    /// Override for the player data directory
    pub player_data_dir: Option<String>,
    /// Override for the player statistics directory
    pub player_stats_dir: Option<String>,
    /// Explicit player name cache files (overriding auto-detection)
    pub usercache_files: Vec<String>,
    /// Directory to emit world-level statistics to, if requested
    pub emit_world_stats: Option<String>,
    /// Only recompute per-region emit data for regions modified after this time
    pub since: Option<Timestamp>,
    /// Whether to generate viewer overlay layers from the overlay data
    pub overlay_layers: bool,
    /// Whether to generate the topographic height layer
    pub height_layer: bool,
    /// Whether to generate the biome/climate layer
    pub biome_layer: bool,
    /// Whether to generate the cave/underground layer
    pub cave_layer: bool,
    /// Whether to generate the mob-spawn (spawn-proofing) layer
    pub mob_spawn: bool,
    /// Whether to generate the contour (elevation lines) layer
    pub contour_layer: bool,
    /// Resource pack directory for the textured layer, if requested
    pub block_textures: Option<String>,
    /// Per-block texture size (in pixels) for the textured layer
    pub texture_scale: u32,
    /// How to render unrecognized (for example modded) blocks
    pub unknown_blocks: UnknownBlockMode,
    /// World seed, used for the slime-chunk overlay (Java Edition only)
    pub world_seed: Option<i64>,
    /// Whether to collect generated structure bounding boxes
    pub structures: bool,
    /// Whether to collect points of interest for viewer marker layers
    pub poi_markers: bool,
    /// Path of input POI directory
    pub poi_dir: String,
    /// Whether to collect mob markers for the viewer
    pub mob_markers: bool,
    /// Path of input entity region directory
    pub entity_region_dir: String,
    /// Path of input region directory
    pub region_dir: String,
    /// Path of input `level.dat` file
    pub level_dat_path: String,
    /// Path of input `level.dat_old` file
    pub level_dat_old_path: String,
    /// Base path for storage of rendered tile data
    pub output_dir: String,
    /// Path for storage of intermediate processed data files
    pub processed_dir: String,
    /// Path for storage of processed entity data files
    pub entities_dir: String,
    /// Path for storage of the final merged processed entity data file
    pub entities_path_final: String,
    /// Path of viewer metadata file
    pub viewer_info_path: String,
    /// Path of viewer entities file
    pub viewer_entities_path: String,
    /// Path of viewer POI file
    pub viewer_pois_path: String,
    /// Path of viewer structures file
    pub viewer_structures_path: String,
    /// Path of viewer mobs file
    pub viewer_mobs_path: String,
    /// Format of generated map tiles
    pub image_format: ImageFormat,
    /// Sign text filter patterns
    pub sign_patterns: RegexSet,
    /// Sign text transformation pattern
    pub sign_transforms: Vec<(Regex, String)>,
}

/// The configuration follows from the command line arguments and the input directory
pub open spec fn configures(config: Config, args: Args, probe: Probe) -> bool {
    let edition = args.edition.resolved(probe.bedrock_marker);
    let output_dir = args.output_dir@;
    let input_dir = args.input_dir@;
    let processed_dir = paths::joined(output_dir, "processed"@);
    let entities_dir = paths::joined(processed_dir, "entities"@);
    &&& config.edition == edition
    &&& config.dim_subdir@ == ""@
    &&& config.render_nether == args.nether
    &&& config.render_end == args.end
    &&& config.nether_region_dir@ == detected(
        input_dir,
        "dimensions/minecraft/the_nether/region"@,
        "DIM-1/region"@,
        probe.nether_regions,
    )
    &&& config.end_region_dir@ == detected(
        input_dir,
        "dimensions/minecraft/the_end/region"@,
        "DIM1/region"@,
        probe.end_regions,
    )
    &&& config.input_dir@ == input_dir
    &&& opt_text(config.emit_overlays) == opt_text(args.emit_overlays)
    &&& opt_text(config.emit_player_data) == opt_text(args.emit_player_data)
    &&& opt_text(config.player_data_dir) == opt_text(args.player_data_dir)
    &&& opt_text(config.player_stats_dir) == opt_text(args.stats_dir)
    &&& patterns::texts(config.usercache_files@) == patterns::texts(args.usercache@)
    &&& opt_text(config.emit_world_stats) == opt_text(args.emit_world_stats)
    &&& config.since == (match args.since {
        Some(ts) => Some((ts * 1_000_000_000) as i128),
        None => None,
    })
    &&& config.overlay_layers == args.overlay_layers
    &&& config.height_layer == args.height_layer
    &&& config.biome_layer == args.biome_layer
    &&& config.cave_layer == args.cave_layer
    &&& config.mob_spawn == args.mob_spawn
    &&& config.contour_layer == args.contour_layer
    &&& opt_text(config.block_textures) == opt_text(args.block_textures)
    &&& config.texture_scale == args.texture_scale
    &&& config.unknown_blocks == args.unknown_blocks.spec_mode()
    // The slime-chunk algorithm is Java-specific, so only Java worlds have a seed
    &&& config.world_seed == (if edition != Edition::Bedrock {
        world_seed(probe.level_dat, probe.level_dat_old)
    } else {
        None
    })
    &&& config.structures == args.structures
    &&& config.poi_markers == args.poi_markers
    &&& config.poi_dir@ == detected(
        input_dir,
        "dimensions/minecraft/overworld/poi"@,
        "poi"@,
        probe.poi_dir,
    )
    &&& config.mob_markers == args.mob_markers
    &&& config.entity_region_dir@ == detected(
        input_dir,
        "dimensions/minecraft/overworld/entities"@,
        "entities"@,
        probe.entity_dir,
    )
    &&& config.region_dir@ == detected(
        input_dir,
        "dimensions/minecraft/overworld/region"@,
        "region"@,
        probe.overworld_regions,
    )
    &&& config.level_dat_path@ == paths::joined(input_dir, "level.dat"@)
    &&& config.level_dat_old_path@ == paths::joined(input_dir, "level.dat_old"@)
    &&& config.output_dir@ == output_dir
    &&& config.processed_dir@ == processed_dir
    &&& config.entities_dir@ == entities_dir
    &&& config.entities_path_final@ == paths::joined(entities_dir, "entities.bin"@)
    &&& config.viewer_info_path@ == paths::joined(output_dir, "info.json"@)
    &&& config.viewer_entities_path@ == paths::joined(output_dir, "entities.json"@)
    &&& config.viewer_pois_path@ == paths::joined(output_dir, "pois.json"@)
    &&& config.viewer_structures_path@ == paths::joined(output_dir, "structures.json"@)
    &&& config.viewer_mobs_path@ == paths::joined(output_dir, "mobs.json"@)
    &&& config.image_format == args.image_format
    &&& patterns::sources(config.sign_patterns) == patterns::sign_expressions(
        args.sign_prefix@,
        args.sign_filter@,
    )
    &&& patterns::transforms_of(args.sign_transform@) == Ok::<
        Seq<(Seq<char>, Seq<char>)>,
        patterns::TransformError,
    >(patterns::transforms_view(config.sign_transforms@))
}

/// Two configurations agree in everything that does not depend on the dimension
pub open spec fn same_settings(a: Config, b: Config) -> bool {
    &&& a.edition == b.edition
    &&& a.render_nether == b.render_nether
    &&& a.render_end == b.render_end
    &&& a.nether_region_dir@ == b.nether_region_dir@
    &&& a.end_region_dir@ == b.end_region_dir@
    &&& a.input_dir@ == b.input_dir@
    &&& opt_text(a.emit_overlays) == opt_text(b.emit_overlays)
    &&& opt_text(a.emit_player_data) == opt_text(b.emit_player_data)
    &&& opt_text(a.player_data_dir) == opt_text(b.player_data_dir)
    &&& opt_text(a.player_stats_dir) == opt_text(b.player_stats_dir)
    &&& patterns::texts(a.usercache_files@) == patterns::texts(b.usercache_files@)
    &&& opt_text(a.emit_world_stats) == opt_text(b.emit_world_stats)
    &&& a.since == b.since
    &&& a.overlay_layers == b.overlay_layers
    &&& a.height_layer == b.height_layer
    &&& a.biome_layer == b.biome_layer
    &&& a.cave_layer == b.cave_layer
    &&& a.mob_spawn == b.mob_spawn
    &&& a.contour_layer == b.contour_layer
    &&& opt_text(a.block_textures) == opt_text(b.block_textures)
    &&& a.texture_scale == b.texture_scale
    &&& a.unknown_blocks == b.unknown_blocks
    &&& a.world_seed == b.world_seed
    &&& a.structures == b.structures
    &&& a.poi_markers == b.poi_markers
    &&& a.mob_markers == b.mob_markers
    &&& a.level_dat_path@ == b.level_dat_path@
    &&& a.level_dat_old_path@ == b.level_dat_old_path@
    &&& a.output_dir@ == b.output_dir@
    &&& a.viewer_info_path@ == b.viewer_info_path@
    &&& a.viewer_entities_path@ == b.viewer_entities_path@
    &&& a.viewer_pois_path@ == b.viewer_pois_path@
    &&& a.viewer_structures_path@ == b.viewer_structures_path@
    &&& a.viewer_mobs_path@ == b.viewer_mobs_path@
    &&& a.image_format == b.image_format
    &&& patterns::sources(a.sign_patterns) == patterns::sources(b.sign_patterns)
    &&& patterns::transforms_view(a.sign_transforms@) == patterns::transforms_view(b.sign_transforms@)
}

impl Config {
    /// Returns the paths that a [Probe] of the input directory is about
    pub fn probe_paths(args: &Args) -> (r: ProbePaths)
        ensures
            r.overworld_regions@ == paths::joined(
                args.input_dir@,
                "dimensions/minecraft/overworld/region"@,
            ),
            r.poi_dir@ == paths::joined(args.input_dir@, "dimensions/minecraft/overworld/poi"@),
            r.entity_dir@ == paths::joined(
                args.input_dir@,
                "dimensions/minecraft/overworld/entities"@,
            ),
            r.nether_regions@ == paths::joined(
                args.input_dir@,
                "dimensions/minecraft/the_nether/region"@,
            ),
            r.end_regions@ == paths::joined(
                args.input_dir@,
                "dimensions/minecraft/the_end/region"@,
            ),
            r.bedrock_marker@ == paths::joined(args.input_dir@, "db/CURRENT"@),
            r.level_dat@ == paths::joined(args.input_dir@, "level.dat"@),
            r.level_dat_old@ == paths::joined(args.input_dir@, "level.dat_old"@),
    {
        let input_dir = args.input_dir.as_str();
        ProbePaths {
            overworld_regions: paths::join(input_dir, "dimensions/minecraft/overworld/region"),
            poi_dir: paths::join(input_dir, "dimensions/minecraft/overworld/poi"),
            entity_dir: paths::join(input_dir, "dimensions/minecraft/overworld/entities"),
            nether_regions: paths::join(input_dir, "dimensions/minecraft/the_nether/region"),
            end_regions: paths::join(input_dir, "dimensions/minecraft/the_end/region"),
            bedrock_marker: paths::join(input_dir, "db/CURRENT"),
            level_dat: paths::join(input_dir, "level.dat"),
            level_dat_old: paths::join(input_dir, "level.dat_old"),
        }
    }

    /// Creates a new [Config] from [command line arguments](Args) and what was found in the
    /// input directory
    pub fn new(args: &Args, probe: &Probe) -> (r: Result<Self, ConfigError>)
        ensures
            !patterns::compile_together(
                patterns::sign_expressions(args.sign_prefix@, args.sign_filter@),
            ) ==> r == Err::<Self, ConfigError>(ConfigError::SignPatterns),
            patterns::compile_together(
                patterns::sign_expressions(args.sign_prefix@, args.sign_filter@),
            ) ==> match patterns::transforms_of(args.sign_transform@) {
                Err(e) => r == Err::<Self, ConfigError>(ConfigError::SignTransforms(e)),
                Ok(_) => r matches Ok(config) && configures(config, *args, *probe),
            },
    {
        let input_dir = args.input_dir.as_str();
        let output_dir = args.output_dir.as_str();
        let region_dir = Self::dimension_region_dir(
            input_dir,
            "dimensions/minecraft/overworld/region",
            "region",
            probe.overworld_regions,
        );
        let poi_dir = Self::dimension_region_dir(
            input_dir,
            "dimensions/minecraft/overworld/poi",
            "poi",
            probe.poi_dir,
        );
        let entity_region_dir = Self::dimension_region_dir(
            input_dir,
            "dimensions/minecraft/overworld/entities",
            "entities",
            probe.entity_dir,
        );
        let processed_dir = paths::join(output_dir, "processed");
        let entities_dir = paths::join(processed_dir.as_str(), "entities");
        let entities_path_final = paths::join(entities_dir.as_str(), "entities.bin");
        let sign_patterns = match patterns::sign_patterns(&args.sign_prefix, &args.sign_filter) {
            Some(set) => set,
            None => return Err(ConfigError::SignPatterns),
        };
        let sign_transforms = match patterns::sign_transforms(&args.sign_transform) {
            Ok(transforms) => transforms,
            Err(e) => return Err(ConfigError::SignTransforms(e)),
        };
        let edition = args.edition.resolve(probe.bedrock_marker);
        let nether_region_dir = Self::dimension_region_dir(
            input_dir,
            "dimensions/minecraft/the_nether/region",
            "DIM-1/region",
            probe.nether_regions,
        );
        let end_region_dir = Self::dimension_region_dir(
            input_dir,
            "dimensions/minecraft/the_end/region",
            "DIM1/region",
            probe.end_regions,
        );
        // The slime-chunk algorithm is Java-specific, so only read the seed for
        // Java worlds.
        let world_seed = if edition != Edition::Bedrock {
            Self::read_world_seed(probe.level_dat, probe.level_dat_old)
        } else {
            None
        };
        let since = match args.since {
            Some(ts) => Some(unix_to_systemtime(ts)),
            None => None,
        };
        Ok(
            Config {
                edition,
                dim_subdir: "".to_owned(),
                render_nether: args.nether,
                render_end: args.end,
                nether_region_dir,
                end_region_dir,
                input_dir: args.input_dir.clone(),
                emit_overlays: copy_opt(&args.emit_overlays),
                emit_player_data: copy_opt(&args.emit_player_data),
                player_data_dir: copy_opt(&args.player_data_dir),
                player_stats_dir: copy_opt(&args.stats_dir),
                usercache_files: copy_all(&args.usercache),
                emit_world_stats: copy_opt(&args.emit_world_stats),
                since,
                overlay_layers: args.overlay_layers,
                height_layer: args.height_layer,
                biome_layer: args.biome_layer,
                cave_layer: args.cave_layer,
                mob_spawn: args.mob_spawn,
                contour_layer: args.contour_layer,
                block_textures: copy_opt(&args.block_textures),
                texture_scale: args.texture_scale,
                unknown_blocks: UnknownBlockMode::from(args.unknown_blocks),
                world_seed,
                structures: args.structures,
                poi_markers: args.poi_markers,
                poi_dir,
                mob_markers: args.mob_markers,
                entity_region_dir,
                region_dir,
                level_dat_path: paths::join(input_dir, "level.dat"),
                level_dat_old_path: paths::join(input_dir, "level.dat_old"),
                output_dir: args.output_dir.clone(),
                processed_dir,
                entities_dir,
                entities_path_final,
                viewer_info_path: paths::join(output_dir, "info.json"),
                viewer_entities_path: paths::join(output_dir, "entities.json"),
                viewer_pois_path: paths::join(output_dir, "pois.json"),
                viewer_structures_path: paths::join(output_dir, "structures.json"),
                viewer_mobs_path: paths::join(output_dir, "mobs.json"),
                image_format: args.image_format,
                sign_patterns,
                sign_transforms,
            },
        )
    }

    /// Determines the world seed from a Java Edition level.dat (1.16+ or older)
    pub fn read_world_seed(data: Option<SeedData>, old_data: Option<SeedData>) -> (r: Option<i64>)
        ensures
            r == world_seed(data, old_data),
    {
        let data = match (data, old_data) {
            (Some(data), _) => data,
            (None, Some(data)) => data,
            (None, None) => return None,
        };
        match data.world_gen_settings {
            Some(settings) => match settings.seed {
                Some(seed) => Some(seed),
                None => data.random_seed,
            },
            None => data.random_seed,
        }
    }

    /// Constructs the path to an input region file
    pub fn region_path(&self, coords: TileCoords) -> (r: String)
        ensures
            r@ == paths::joined(self.region_dir@, filename_of(coords, "mca"@)),
    {
        paths::join(self.region_dir.as_str(), coord_filename(coords, "mca").as_str())
    }

    /// Constructs the path of an intermediate processed region file
    pub fn processed_path(&self, coords: TileCoords) -> (r: String)
        ensures
            r@ == paths::joined(self.processed_dir@, filename_of(coords, "bin"@)),
    {
        paths::join(self.processed_dir.as_str(), coord_filename(coords, "bin").as_str())
    }

    /// Constructs the path of a cached per-region overlay contribution
    pub fn overlay_cache_path(&self, coords: TileCoords) -> (r: String)
        ensures
            r@ == paths::joined(self.processed_dir@, filename_of(coords, "overlay"@)),
    {
        paths::join(self.processed_dir.as_str(), coord_filename(coords, "overlay").as_str())
    }

    /// Directory holding cached per-region POI contributions
    pub fn poi_cache_dir(&self) -> (r: String)
        ensures
            r@ == paths::joined(self.processed_dir@, "poi"@),
    {
        paths::join(self.processed_dir.as_str(), "poi")
    }

    /// Directory holding cached per-region mob contributions
    pub fn mob_cache_dir(&self) -> (r: String)
        ensures
            r@ == paths::joined(self.processed_dir@, "mob"@),
    {
        paths::join(self.processed_dir.as_str(), "mob")
    }

    /// Constructs the base output path for processed entity data
    pub fn entities_dir(&self, level: usize) -> (r: String)
        ensures
            r@ == paths::joined(self.entities_dir@, text::digits(level as nat)),
    {
        let mut name = String::new();
        text::push_digits(&mut name, level as u64);
        assert(name@ =~= text::digits(level as nat));
        paths::join(self.entities_dir.as_str(), name.as_str())
    }

    /// Constructs the path of a processed entity data file
    pub fn entities_path(&self, level: usize, coords: TileCoords) -> (r: String)
        ensures
            r@ == paths::joined(
                paths::joined(self.entities_dir@, text::digits(level as nat)),
                filename_of(coords, "bin"@),
            ),
    {
        let dir = self.entities_dir(level);
        paths::join(dir.as_str(), coord_filename(coords, "bin").as_str())
    }

    /// The base output path for a [TileKind] and mipmap level
    pub open spec fn spec_tile_dir(&self, kind: TileKind, level: usize) -> Seq<char> {
        dim_joined(
            self.output_dir@,
            self.dim_subdir@,
            kind.spec_prefix() + "/"@ + text::digits(level as nat),
        )
    }

    /// Constructs the base output path for a [TileKind] and mipmap level
    pub fn tile_dir(&self, kind: TileKind, level: usize) -> (r: String)
        ensures
            r@ == self.spec_tile_dir(kind, level),
    {
        let mut dir: String = kind.prefix().to_owned();
        dir.append("/");
        text::push_digits(&mut dir, level as u64);
        Self::join_dim(self.output_dir.as_str(), self.dim_subdir.as_str(), dir.as_str())
    }

    /// Joins an output-relative path, inserting the dimension subdirectory
    pub fn join_dim(output_dir: &str, dim_subdir: &str, rest: &str) -> (r: String)
        ensures
            r@ == dim_joined(output_dir@, dim_subdir@, rest@),
    {
        if text::to_chars(dim_subdir).len() == 0 {
            paths::join(output_dir, rest)
        } else {
            paths::join(paths::join(output_dir, dim_subdir).as_str(), rest)
        }
    }

    /// Detects a dimension's region directory (modern or legacy layout)
    pub fn dimension_region_dir(
        input_dir: &str,
        modern: &str,
        legacy: &str,
        modern_found: bool,
    ) -> (r: String)
        ensures
            r@ == detected(input_dir@, modern@, legacy@, modern_found),
    {
        if modern_found {
            paths::join(input_dir, modern)
        } else {
            paths::join(input_dir, legacy)
        }
    }

    /// The dimensions to render and their input region directories
    pub open spec fn rendered(&self, nether_found: bool, end_found: bool) -> Seq<
        (Dimension, Seq<char>),
    > {
        let overworld = seq![(Dimension::Overworld, self.region_dir@)];
        let nether = if self.render_nether && nether_found {
            seq![(Dimension::Nether, self.nether_region_dir@)]
        } else {
            Seq::empty()
        };
        let end = if self.render_end && end_found {
            seq![(Dimension::End, self.end_region_dir@)]
        } else {
            Seq::empty()
        };
        overworld + nether + end
    }

    /// Returns the dimensions to render and their input region directories, where
    /// `nether_found` and `end_found` tell whether the other dimensions have region files
    pub fn dimensions_to_render(&self, nether_found: bool, end_found: bool) -> (r: Vec<
        (Dimension, String),
    >)
        ensures
            dimensions_view(r@) == self.rendered(nether_found, end_found),
    {
        let mut dims: Vec<(Dimension, String)> = Vec::new();
        dims.push((Dimension::Overworld, self.region_dir.clone()));
        if self.render_nether && nether_found {
            dims.push((Dimension::Nether, self.nether_region_dir.clone()));
        }
        if self.render_end && end_found {
            dims.push((Dimension::End, self.end_region_dir.clone()));
        }
        assert(dimensions_view(dims@) =~= self.rendered(nether_found, end_found));
        dims
    }

    /// Returns the input subdirectory of a dimension in the modern layout
    pub fn modern_sub_input(&self, dimension: Dimension, sub: &str) -> (r: String)
        ensures
            r@ == paths::joined(self.input_dir@, modern_sub(modern_dim(dimension), sub@)),
    {
        let dim: &str = match dimension {
            Dimension::Overworld => "overworld",
            Dimension::Nether => "the_nether",
            Dimension::End => "the_end",
        };
        let mut path: String = "dimensions/minecraft/".to_owned();
        path.append(dim);
        path.append("/");
        path.append(sub);
        paths::join(self.input_dir.as_str(), path.as_str())
    }

    /// Detects a per-dimension input subdirectory (modern or legacy layout)
    pub fn dim_sub_input(
        input_dir: &str,
        modern_dim: &str,
        legacy_dim: &str,
        sub: &str,
        modern_found: bool,
    ) -> (r: String)
        ensures
            r@ == detected(
                input_dir@,
                modern_sub(modern_dim@, sub@),
                legacy_sub(legacy_dim@, sub@),
                modern_found,
            ),
    {
        let mut path: String = if modern_found {
            let mut modern: String = "dimensions/minecraft/".to_owned();
            modern.append(modern_dim);
            modern
        } else {
            legacy_dim.to_owned()
        };
        path.append("/");
        path.append(sub);
        paths::join(input_dir, path.as_str())
    }

    /// Derives a [Config] for a specific dimension and input region directory
    ///
    /// `modern_poi` and `modern_entities` tell whether the dimension's POI and entity
    /// directories of the modern layout exist; they do not matter for the overworld.
    pub fn for_dimension(
        &self,
        dimension: Dimension,
        region_dir: String,
        modern_poi: bool,
        modern_entities: bool,
    ) -> (r: Config)
        ensures
            same_settings(r, *self),
            r.dim_subdir@ == subdir_of(dimension),
            r.region_dir@ == region_dir@,
            r.processed_dir@ == dim_joined(self.output_dir@, subdir_of(dimension), "processed"@),
            r.entities_dir@ == paths::joined(r.processed_dir@, "entities"@),
            r.entities_path_final@ == paths::joined(r.entities_dir@, "entities.bin"@),
            r.poi_dir@ == (if dimension == Dimension::Overworld {
                self.poi_dir@
            } else {
                detected(
                    self.input_dir@,
                    modern_sub(modern_dim(dimension), "poi"@),
                    legacy_sub(legacy_dim(dimension), "poi"@),
                    modern_poi,
                )
            }),
            r.entity_region_dir@ == (if dimension == Dimension::Overworld {
                self.entity_region_dir@
            } else {
                detected(
                    self.input_dir@,
                    modern_sub(modern_dim(dimension), "entities"@),
                    legacy_sub(legacy_dim(dimension), "entities"@),
                    modern_entities,
                )
            }),
    {
        let input_dir = self.input_dir.as_str();
        let subdir: &str = match dimension {
            Dimension::Overworld => "",
            Dimension::Nether => "nether",
            Dimension::End => "end",
        };
        let dim_subdir: String = subdir.to_owned();
        let processed_dir = Self::join_dim(self.output_dir.as_str(), subdir, "processed");
        let entities_dir = paths::join(processed_dir.as_str(), "entities");
        let entities_path_final = paths::join(entities_dir.as_str(), "entities.bin");
        let (poi_dir, entity_region_dir) = match dimension {
            Dimension::Overworld => (self.poi_dir.clone(), self.entity_region_dir.clone()),
            Dimension::Nether => (
                Self::dim_sub_input(input_dir, "the_nether", "DIM-1", "poi", modern_poi),
                Self::dim_sub_input(input_dir, "the_nether", "DIM-1", "entities", modern_entities),
            ),
            Dimension::End => (
                Self::dim_sub_input(input_dir, "the_end", "DIM1", "poi", modern_poi),
                Self::dim_sub_input(input_dir, "the_end", "DIM1", "entities", modern_entities),
            ),
        };
        Config {
            edition: self.edition,
            dim_subdir,
            render_nether: self.render_nether,
            render_end: self.render_end,
            nether_region_dir: self.nether_region_dir.clone(),
            end_region_dir: self.end_region_dir.clone(),
            input_dir: self.input_dir.clone(),
            emit_overlays: copy_opt(&self.emit_overlays),
            emit_player_data: copy_opt(&self.emit_player_data),
            player_data_dir: copy_opt(&self.player_data_dir),
            player_stats_dir: copy_opt(&self.player_stats_dir),
            usercache_files: copy_all(&self.usercache_files),
            emit_world_stats: copy_opt(&self.emit_world_stats),
            since: self.since,
            overlay_layers: self.overlay_layers,
            height_layer: self.height_layer,
            biome_layer: self.biome_layer,
            cave_layer: self.cave_layer,
            mob_spawn: self.mob_spawn,
            contour_layer: self.contour_layer,
            block_textures: copy_opt(&self.block_textures),
            texture_scale: self.texture_scale,
            unknown_blocks: self.unknown_blocks,
            world_seed: self.world_seed,
            structures: self.structures,
            poi_markers: self.poi_markers,
            poi_dir,
            mob_markers: self.mob_markers,
            entity_region_dir,
            region_dir,
            level_dat_path: self.level_dat_path.clone(),
            level_dat_old_path: self.level_dat_old_path.clone(),
            output_dir: self.output_dir.clone(),
            processed_dir,
            entities_dir,
            entities_path_final,
            viewer_info_path: self.viewer_info_path.clone(),
            viewer_entities_path: self.viewer_entities_path.clone(),
            viewer_pois_path: self.viewer_pois_path.clone(),
            viewer_structures_path: self.viewer_structures_path.clone(),
            viewer_mobs_path: self.viewer_mobs_path.clone(),
            image_format: self.image_format,
            sign_patterns: patterns::copy_set(&self.sign_patterns),
            sign_transforms: patterns::copy_transforms(&self.sign_transforms),
        }
    }

    /// Returns whether per-chunk overlay data should be collected
    ///
    /// World statistics need the inhabited-chunk data from the overlay pass.
    pub fn wants_overlays(&self) -> (r: bool)
        ensures
            r == (self.emit_overlays is Some || self.overlay_layers
                || self.emit_world_stats is Some),
    {
        self.emit_overlays.is_some() || self.overlay_layers || self.emit_world_stats.is_some()
    }

    /// Returns whether generated structure bounding boxes should be collected
    ///
    /// Collection is enabled by the `--structures` viewer layer as well as by
    /// `--emit-overlays`, which consolidates all derived data into one directory.
    pub fn collect_structures(&self) -> (r: bool)
        ensures
            r == (self.structures || self.emit_overlays is Some),
    {
        self.structures || self.emit_overlays.is_some()
    }

    /// Returns whether points of interest should be collected
    pub fn collect_pois(&self) -> (r: bool)
        ensures
            r == (self.poi_markers || self.emit_overlays is Some),
    {
        self.poi_markers || self.emit_overlays.is_some()
    }

    /// Returns whether mob markers should be collected
    pub fn collect_mobs(&self) -> (r: bool)
        ensures
            r == (self.mob_markers || self.emit_overlays is Some),
    {
        self.mob_markers || self.emit_overlays.is_some()
    }

    /// Returns the directory viewer overlay layers are written to
    pub fn overlay_layers_dir(&self) -> (r: String)
        ensures
            r@ == paths::joined(self.output_dir@, "overlays"@),
    {
        paths::join(self.output_dir.as_str(), "overlays")
    }

    /// Returns the directories the overlay data files should be written to
    pub fn overlay_output_dirs(&self) -> (r: Vec<String>)
        ensures
            patterns::texts(r@) == (match opt_text(self.emit_overlays) {
                Some(dir) => seq![dir],
                None => Seq::empty(),
            }) + (if self.overlay_layers {
                seq![paths::joined(self.output_dir@, "overlays"@)]
            } else {
                Seq::empty()
            }),
    {
        let mut dirs: Vec<String> = Vec::new();
        if let Some(dir) = &self.emit_overlays {
            dirs.push(dir.clone());
        }
        if self.overlay_layers {
            dirs.push(self.overlay_layers_dir());
        }
        assert(patterns::texts(dirs@) =~= (match opt_text(self.emit_overlays) {
            Some(dir) => seq![dir],
            None => Seq::empty(),
        }) + (if self.overlay_layers {
            seq![paths::joined(self.output_dir@, "overlays"@)]
        } else {
            Seq::empty()
        }));
        dirs
    }

    /// The file extension for the configured image format
    pub open spec fn spec_extension(&self) -> Seq<char> {
        match self.image_format {
            ImageFormat::Png => "png"@,
            ImageFormat::Webp => "webp"@,
        }
    }

    /// Returns the file extension for the configured image format
    pub fn tile_extension(&self) -> (r: &'static str)
        ensures
            r@ == self.spec_extension(),
    {
        match self.image_format {
            ImageFormat::Png => "png",
            ImageFormat::Webp => "webp",
        }
    }

    /// Constructs the path of an output tile image
    pub fn tile_path(&self, kind: TileKind, level: usize, coords: TileCoords) -> (r: String)
        ensures
            r@ == paths::joined(
                self.spec_tile_dir(kind, level),
                filename_of(coords, self.spec_extension()),
            ),
    {
        let filename = coord_filename(coords, self.tile_extension());
        let dir = self.tile_dir(kind, level);
        paths::join(dir.as_str(), filename.as_str())
    }
}

/// Dimensions and their input region directories
pub open spec fn dimensions_view(dims: Seq<(Dimension, String)>) -> Seq<(Dimension, Seq<char>)> {
    dims.map_values(|d: (Dimension, String)| (d.0, d.1@))
}

/// The overworld keeps the paths of a single-dimension map, and the other dimensions are
/// placed under a subdirectory
pub proof fn dimension_paths(output_dir: Seq<char>, dimension: Dimension, rest: Seq<char>)
    ensures
        dim_joined(output_dir, subdir_of(dimension), rest) == (if dimension
            == Dimension::Overworld {
            paths::joined(output_dir, rest)
        } else {
            paths::joined(paths::joined(output_dir, dimension.spec_key()), rest)
        }),
{
    reveal_strlit("");
    reveal_strlit("nether");
    reveal_strlit("end");
}

/// Deriving the configuration of the overworld changes no output path
pub proof fn overworld_paths_unchanged(config: Config, args: Args, probe: Probe, derived: Config)
    requires
        configures(config, args, probe),
        same_settings(derived, config),
        derived.dim_subdir@ == subdir_of(Dimension::Overworld),
        derived.processed_dir@ == dim_joined(
            config.output_dir@,
            subdir_of(Dimension::Overworld),
            "processed"@,
        ),
        derived.entities_dir@ == paths::joined(derived.processed_dir@, "entities"@),
        derived.entities_path_final@ == paths::joined(derived.entities_dir@, "entities.bin"@),
    ensures
        derived.processed_dir@ == config.processed_dir@,
        derived.entities_dir@ == config.entities_dir@,
        derived.entities_path_final@ == config.entities_path_final@,
        forall|kind: TileKind, level: usize| #[trigger]
            derived.spec_tile_dir(kind, level) == config.spec_tile_dir(kind, level),
{
    dimension_paths(config.output_dir@, Dimension::Overworld, "processed"@);
}

/// The options of the command line are taken over into the configuration, each under its name
pub proof fn options_taken_over(config: Config, args: Args, probe: Probe)
    requires
        configures(config, args, probe),
    ensures
        config.render_nether == args.nether,
        config.render_end == args.end,
        config.overlay_layers == args.overlay_layers,
        config.height_layer == args.height_layer,
        config.biome_layer == args.biome_layer,
        config.cave_layer == args.cave_layer,
        config.mob_spawn == args.mob_spawn,
        config.contour_layer == args.contour_layer,
        config.structures == args.structures,
        config.poi_markers == args.poi_markers,
        config.mob_markers == args.mob_markers,
        config.texture_scale == args.texture_scale,
        config.image_format == args.image_format,
        match args.emit_overlays {
            Some(text) => config.emit_overlays matches Some(copy) && copy@ == text@,
            None => config.emit_overlays is None,
        },
        match args.emit_player_data {
            Some(text) => config.emit_player_data matches Some(copy) && copy@ == text@,
            None => config.emit_player_data is None,
        },
        match args.player_data_dir {
            Some(text) => config.player_data_dir matches Some(copy) && copy@ == text@,
            None => config.player_data_dir is None,
        },
        match args.stats_dir {
            Some(text) => config.player_stats_dir matches Some(copy) && copy@ == text@,
            None => config.player_stats_dir is None,
        },
        match args.emit_world_stats {
            Some(text) => config.emit_world_stats matches Some(copy) && copy@ == text@,
            None => config.emit_world_stats is None,
        },
        match args.block_textures {
            Some(text) => config.block_textures matches Some(copy) && copy@ == text@,
            None => config.block_textures is None,
        },
        config.usercache_files@.len() == args.usercache@.len(),
        forall|i: int|
            0 <= i < args.usercache@.len() ==> (#[trigger] config.usercache_files@[i])@
                == args.usercache@[i]@,
        args.since matches Some(seconds) ==> config.since == Some(
            (seconds * 1_000_000_000) as i128,
        ),
        args.since is None ==> config.since is None,
        args.unknown_blocks == UnknownBlocks::Hide ==> config.unknown_blocks
            == UnknownBlockMode::Hide,
        args.unknown_blocks == UnknownBlocks::Gray ==> config.unknown_blocks
            == UnknownBlockMode::Gray,
        args.unknown_blocks == UnknownBlocks::Color ==> config.unknown_blocks
            == UnknownBlockMode::Color,
        config.input_dir@ == args.input_dir@,
        config.output_dir@ == args.output_dir@,
{
    let a = patterns::texts(config.usercache_files@);
    let b = patterns::texts(args.usercache@);
    assert(a.len() == config.usercache_files@.len() && b.len() == args.usercache@.len());
    assert forall|i: int| 0 <= i < args.usercache@.len() implies (
    #[trigger] config.usercache_files@[i])@ == args.usercache@[i]@ by {
        assert(a[i] == config.usercache_files@[i]@ && b[i] == args.usercache@[i]@);
    }
}

/// An edition that was asked for is used; otherwise it is Bedrock Edition where its marker file
/// is found, and Java Edition elsewhere
pub proof fn edition_detected(config: Config, args: Args, probe: Probe)
    requires
        configures(config, args, probe),
    ensures
        args.edition == Edition::Java ==> config.edition == Edition::Java,
        args.edition == Edition::Bedrock ==> config.edition == Edition::Bedrock,
        args.edition == Edition::Auto && probe.bedrock_marker ==> config.edition
            == Edition::Bedrock,
        args.edition == Edition::Auto && !probe.bedrock_marker ==> config.edition == Edition::Java,
{
}

/// The seed of a Java Edition world is that of its `level.dat`, or of its `level.dat_old` where
/// that cannot be read; the seed of the world generation settings counts more than the older
/// one, and Bedrock Edition worlds have none
pub proof fn seed_found(config: Config, args: Args, probe: Probe, level: SeedData, seed: i64)
    requires
        configures(config, args, probe),
    ensures
        config.edition == Edition::Bedrock ==> config.world_seed is None,
        probe.level_dat is None && probe.level_dat_old is None ==> config.world_seed is None,
        config.edition == Edition::Java && (probe.level_dat == Some(level) || (probe.level_dat
            is None && probe.level_dat_old == Some(level))) ==> {
            &&& level.world_gen_settings == Some(SeedWorldGenSettings { seed: Some(seed) })
                ==> config.world_seed == Some(seed)
            &&& level.world_gen_settings is None || level.world_gen_settings == Some(
                SeedWorldGenSettings { seed: None },
            ) ==> config.world_seed == level.random_seed
        },
{
}

/// The input directories are those of the modern layout where they are found, and those of the
/// legacy layout elsewhere
pub proof fn input_directories(config: Config, args: Args, probe: Probe)
    requires
        configures(config, args, probe),
    ensures
        probe.overworld_regions ==> config.region_dir@ == paths::joined(
            args.input_dir@,
            "dimensions/minecraft/overworld/region"@,
        ),
        !probe.overworld_regions ==> config.region_dir@ == paths::joined(args.input_dir@, "region"@),
        probe.poi_dir ==> config.poi_dir@ == paths::joined(
            args.input_dir@,
            "dimensions/minecraft/overworld/poi"@,
        ),
        !probe.poi_dir ==> config.poi_dir@ == paths::joined(args.input_dir@, "poi"@),
        probe.entity_dir ==> config.entity_region_dir@ == paths::joined(
            args.input_dir@,
            "dimensions/minecraft/overworld/entities"@,
        ),
        !probe.entity_dir ==> config.entity_region_dir@ == paths::joined(args.input_dir@, "entities"@),
        probe.nether_regions ==> config.nether_region_dir@ == paths::joined(
            args.input_dir@,
            "dimensions/minecraft/the_nether/region"@,
        ),
        !probe.nether_regions ==> config.nether_region_dir@ == paths::joined(args.input_dir@, "DIM-1/region"@),
        probe.end_regions ==> config.end_region_dir@ == paths::joined(
            args.input_dir@,
            "dimensions/minecraft/the_end/region"@,
        ),
        !probe.end_regions ==> config.end_region_dir@ == paths::joined(args.input_dir@, "DIM1/region"@),
        config.level_dat_path@ == paths::joined(args.input_dir@, "level.dat"@),
        config.level_dat_old_path@ == paths::joined(args.input_dir@, "level.dat_old"@),
{
}

/// The viewer files stand in the output directory under their names, and the processed data in
/// directories below it
#[verifier::spinoff_prover]
pub proof fn output_files(config: Config, args: Args, probe: Probe)
    requires
        configures(config, args, probe),
    ensures
        paths::file_name(config.viewer_info_path@) == Some("info.json"@),
        paths::parent(config.viewer_info_path@) == Some(paths::trimmed(args.output_dir@)),
        paths::file_name(config.viewer_entities_path@) == Some("entities.json"@),
        paths::parent(config.viewer_entities_path@) == Some(paths::trimmed(args.output_dir@)),
        paths::file_name(config.viewer_pois_path@) == Some("pois.json"@),
        paths::parent(config.viewer_pois_path@) == Some(paths::trimmed(args.output_dir@)),
        paths::file_name(config.viewer_structures_path@) == Some("structures.json"@),
        paths::parent(config.viewer_structures_path@) == Some(paths::trimmed(args.output_dir@)),
        paths::file_name(config.viewer_mobs_path@) == Some("mobs.json"@),
        paths::parent(config.viewer_mobs_path@) == Some(paths::trimmed(args.output_dir@)),
        paths::file_name(config.processed_dir@) == Some("processed"@),
        paths::parent(config.processed_dir@) == Some(paths::trimmed(args.output_dir@)),
        paths::file_name(config.entities_dir@) == Some("entities"@),
        paths::parent(config.entities_dir@) == Some(config.processed_dir@),
        paths::file_name(config.entities_path_final@) == Some("entities.bin"@),
        paths::parent(config.entities_path_final@) == Some(config.entities_dir@),
{
    reveal_strlit("info.json");
    assert("info.json"@.len() == 9 && !"info.json"@.contains('/'));
    reveal_strlit("entities.json");
    assert("entities.json"@.len() == 13 && !"entities.json"@.contains('/'));
    reveal_strlit("pois.json");
    assert("pois.json"@.len() == 9 && !"pois.json"@.contains('/'));
    reveal_strlit("structures.json");
    assert("structures.json"@.len() == 15 && !"structures.json"@.contains('/'));
    reveal_strlit("mobs.json");
    assert("mobs.json"@.len() == 9 && !"mobs.json"@.contains('/'));
    reveal_strlit("processed");
    assert("processed"@.len() == 9 && !"processed"@.contains('/'));
    reveal_strlit("entities");
    assert("entities"@.len() == 8 && !"entities"@.contains('/'));
    reveal_strlit("entities.bin");
    assert("entities.bin"@.len() == 12 && !"entities.bin"@.contains('/'));
    paths::joined_found(args.output_dir@, "info.json"@);
    paths::joined_found(args.output_dir@, "entities.json"@);
    paths::joined_found(args.output_dir@, "pois.json"@);
    paths::joined_found(args.output_dir@, "structures.json"@);
    paths::joined_found(args.output_dir@, "mobs.json"@);
    paths::joined_found(args.output_dir@, "processed"@);
    paths::joined_found(config.processed_dir@, "entities"@);
    paths::joined_found(config.entities_dir@, "entities.bin"@);
    name_not_trimmed(args.output_dir@, "processed"@);
    name_not_trimmed(config.processed_dir@, "entities"@);
}

proof fn name_not_trimmed(dir: Seq<char>, name: Seq<char>)
    requires
        name.len() > 1,
        name.last() != '/',
        name.last() != '.',
        name[0] != '/',
    ensures
        paths::trimmed(paths::joined(dir, name)) == paths::joined(dir, name),
{
    assert(paths::joined(dir, name).last() == name.last());
}

/// A configuration that is derived for a dimension keeps all settings
pub proof fn settings_kept(a: Config, b: Config)
    requires
        same_settings(a, b),
    ensures
        a.overlay_layers == b.overlay_layers,
        a.height_layer == b.height_layer,
        a.biome_layer == b.biome_layer,
        a.cave_layer == b.cave_layer,
        a.mob_spawn == b.mob_spawn,
        a.contour_layer == b.contour_layer,
        a.structures == b.structures,
        a.poi_markers == b.poi_markers,
        a.mob_markers == b.mob_markers,
        a.texture_scale == b.texture_scale,
        a.image_format == b.image_format,
        a.edition == b.edition,
        a.render_nether == b.render_nether,
        a.render_end == b.render_end,
        a.since == b.since,
        a.unknown_blocks == b.unknown_blocks,
        a.world_seed == b.world_seed,
        match a.emit_overlays {
            Some(text) => b.emit_overlays matches Some(copy) && copy@ == text@,
            None => b.emit_overlays is None,
        },
        match a.emit_player_data {
            Some(text) => b.emit_player_data matches Some(copy) && copy@ == text@,
            None => b.emit_player_data is None,
        },
        match a.player_data_dir {
            Some(text) => b.player_data_dir matches Some(copy) && copy@ == text@,
            None => b.player_data_dir is None,
        },
        match a.player_stats_dir {
            Some(text) => b.player_stats_dir matches Some(copy) && copy@ == text@,
            None => b.player_stats_dir is None,
        },
        match a.emit_world_stats {
            Some(text) => b.emit_world_stats matches Some(copy) && copy@ == text@,
            None => b.emit_world_stats is None,
        },
        match a.block_textures {
            Some(text) => b.block_textures matches Some(copy) && copy@ == text@,
            None => b.block_textures is None,
        },
        a.input_dir@ == b.input_dir@,
        a.output_dir@ == b.output_dir@,
        a.nether_region_dir@ == b.nether_region_dir@,
        a.end_region_dir@ == b.end_region_dir@,
        a.level_dat_path@ == b.level_dat_path@,
        a.level_dat_old_path@ == b.level_dat_old_path@,
        a.viewer_info_path@ == b.viewer_info_path@,
        a.viewer_entities_path@ == b.viewer_entities_path@,
        a.viewer_pois_path@ == b.viewer_pois_path@,
        a.viewer_structures_path@ == b.viewer_structures_path@,
        a.viewer_mobs_path@ == b.viewer_mobs_path@,
        patterns::sources(a.sign_patterns) == patterns::sources(b.sign_patterns),
        a.sign_transforms@.len() == b.sign_transforms@.len(),
{
    assert(patterns::transforms_view(a.sign_transforms@).len() == a.sign_transforms@.len());
    assert(patterns::transforms_view(b.sign_transforms@).len() == b.sign_transforms@.len());
}

/// The POI and entity directories of the other dimensions, in both layouts
#[verifier::spinoff_prover]
pub proof fn dimension_inputs(input_dir: Seq<char>)
    ensures
        modern_sub(modern_dim(Dimension::Nether), "poi"@) == "dimensions/minecraft/the_nether/poi"@,
        legacy_sub(legacy_dim(Dimension::Nether), "poi"@) == "DIM-1/poi"@,
        modern_sub(modern_dim(Dimension::Nether), "entities"@) == "dimensions/minecraft/the_nether/entities"@,
        legacy_sub(legacy_dim(Dimension::Nether), "entities"@) == "DIM-1/entities"@,
        modern_sub(modern_dim(Dimension::End), "poi"@) == "dimensions/minecraft/the_end/poi"@,
        legacy_sub(legacy_dim(Dimension::End), "poi"@) == "DIM1/poi"@,
        modern_sub(modern_dim(Dimension::End), "entities"@) == "dimensions/minecraft/the_end/entities"@,
        legacy_sub(legacy_dim(Dimension::End), "entities"@) == "DIM1/entities"@,
        subdir_of(Dimension::Overworld).len() == 0,
        subdir_of(Dimension::Nether) == "nether"@,
        subdir_of(Dimension::End) == "end"@,
        forall|modern: Seq<char>, legacy: Seq<char>| #[trigger]
            detected(input_dir, modern, legacy, true) == paths::joined(input_dir, modern),
        forall|modern: Seq<char>, legacy: Seq<char>| #[trigger]
            detected(input_dir, modern, legacy, false) == paths::joined(input_dir, legacy),
{
    reveal_strlit("");
    reveal_strlit("dimensions/minecraft/");
    reveal_strlit("/");
    reveal_strlit("poi");
    reveal_strlit("entities");
    reveal_strlit("the_nether");
    reveal_strlit("the_end");
    reveal_strlit("DIM-1");
    reveal_strlit("DIM1");
    reveal_strlit("dimensions/minecraft/the_nether/poi");
    reveal_strlit("DIM-1/poi");
    assert(modern_sub("the_nether"@, "poi"@) =~= "dimensions/minecraft/the_nether/poi"@);
    assert(legacy_sub("DIM-1"@, "poi"@) =~= "DIM-1/poi"@);
    reveal_strlit("dimensions/minecraft/the_nether/entities");
    reveal_strlit("DIM-1/entities");
    assert(modern_sub("the_nether"@, "entities"@) =~= "dimensions/minecraft/the_nether/entities"@);
    assert(legacy_sub("DIM-1"@, "entities"@) =~= "DIM-1/entities"@);
    reveal_strlit("dimensions/minecraft/the_end/poi");
    reveal_strlit("DIM1/poi");
    assert(modern_sub("the_end"@, "poi"@) =~= "dimensions/minecraft/the_end/poi"@);
    assert(legacy_sub("DIM1"@, "poi"@) =~= "DIM1/poi"@);
    reveal_strlit("dimensions/minecraft/the_end/entities");
    reveal_strlit("DIM1/entities");
    assert(modern_sub("the_end"@, "entities"@) =~= "dimensions/minecraft/the_end/entities"@);
    assert(legacy_sub("DIM1"@, "entities"@) =~= "DIM1/entities"@);
}

/// The overworld is always rendered, and first; the nether and the end are rendered if they are
/// asked for and have region files, each from its own region directory
pub proof fn rendered_dimensions(config: Config, nether: bool, end: bool)
    ensures
        ({
            let all = config.rendered(nether, end);
            &&& all[0] == (Dimension::Overworld, config.region_dir@)
            &&& all.contains((Dimension::Nether, config.nether_region_dir@)) <==> nether
                && config.render_nether
            &&& all.contains((Dimension::End, config.end_region_dir@)) <==> end
                && config.render_end
            &&& all.len() == 1 + (if nether && config.render_nether { 1int } else { 0 }) + (if end
                && config.render_end { 1int } else { 0 })
            &&& forall|i: int, j: int|
                0 <= i < j < all.len() ==> (#[trigger] all[i]).0 != (#[trigger] all[j]).0
        }),
{
    let all = config.rendered(nether, end);
    if nether && config.render_nether {
        assert(all[1] == (Dimension::Nether, config.nether_region_dir@));
    }
    if end && config.render_end {
        assert(all[all.len() - 1] == (Dimension::End, config.end_region_dir@));
    }
}

/// Tiles of different kinds are kept in different directories
#[verifier::spinoff_prover]
pub proof fn tile_kinds_distinct(a: TileKind, b: TileKind)
    requires
        a.spec_prefix() == b.spec_prefix(),
    ensures
        a == b,
{
    reveal_strlit("map");
    assert("map"@.len() == 3);
    reveal_strlit("light");
    assert("light"@.len() == 5);
    reveal_strlit("height");
    assert("height"@.len() == 6);
    reveal_strlit("biome");
    assert("biome"@.len() == 5);
    reveal_strlit("cave");
    assert("cave"@.len() == 4);
    reveal_strlit("mobspawn");
    assert("mobspawn"@.len() == 8);
    reveal_strlit("contour");
    assert("contour"@.len() == 7);
    reveal_strlit("textured");
    assert("textured"@.len() == 8);
    assert("light"@[0] == 'l' && "biome"@[0] == 'b');
    assert("mobspawn"@[0] == 'm' && "textured"@[0] == 't');
}

/// Tile images have the extension of the configured format
pub proof fn tile_extensions(config: Config)
    ensures
        config.image_format == ImageFormat::Png ==> config.spec_extension() == "png"@,
        config.image_format == ImageFormat::Webp ==> config.spec_extension() == "webp"@,
{
}

/// The filename of a region gives its coordinates in decimal form, and ends in the extension
pub proof fn filename_parts_in_order(coords: TileCoords, ext: Seq<char>)
    ensures
        filename_of(coords, ext) == seq!['r', '.'] + text::decimal(coords.x as int) + seq!['.']
            + text::decimal(coords.z as int) + seq!['.'] + ext,
{
    reveal_strlit("r.");
    reveal_strlit(".");
    assert("r."@ =~= seq!['r', '.']);
    assert("."@ =~= seq!['.']);
}

/// Output paths lie in the subdirectory of a dimension, if it has one
pub proof fn subdirectory_inserted(output_dir: Seq<char>, subdir: Seq<char>, rest: Seq<char>)
    ensures
        subdir.len() > 0 ==> dim_joined(output_dir, subdir, rest) == paths::joined(
            paths::joined(output_dir, subdir),
            rest,
        ),
        subdir.len() == 0 ==> dim_joined(output_dir, subdir, rest) == paths::joined(
            output_dir,
            rest,
        ),
{
}

/// Tiles stand in a directory for their kind and zoom level
pub proof fn tile_directories(config: Config, kind: TileKind, level: usize)
    ensures
        TileKind::MapTile.spec_prefix() == "map"@,
        TileKind::Lightmap.spec_prefix() == "light"@,
        TileKind::Heightmap.spec_prefix() == "height"@,
        TileKind::Biomemap.spec_prefix() == "biome"@,
        TileKind::Cavemap.spec_prefix() == "cave"@,
        TileKind::Mobspawn.spec_prefix() == "mobspawn"@,
        TileKind::Contourmap.spec_prefix() == "contour"@,
        TileKind::Textured.spec_prefix() == "textured"@,
        config.spec_tile_dir(kind, level) == dim_joined(
            config.output_dir@,
            config.dim_subdir@,
            kind.spec_prefix() + "/"@ + text::digits(level as nat),
        ),
{
}

} // verus!
