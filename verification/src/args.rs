//! Command line arguments

use crate::common::{Edition, ImageFormat, UnknownBlocks};
use vstd::prelude::*;

verus! {

/// A span of time
#[derive(Debug, Clone, Copy, PartialEq, Eq, Structural)]
pub struct Delay {
    /// Whole seconds
    pub secs: u64,
    /// Nanoseconds beyond the seconds
    pub nanos: u32,
}

/// Command line arguments for minedmap CLI
#[derive(Debug)]
pub struct Args {
    /// Number of parallel threads to use for processing
    ///
    /// If not given, only a single thread is used. Pass 0 to
    /// use one thread per logical CPU core.
    pub jobs: Option<usize>,
    /// Number of parallel threads to use for initial processing
    ///
    /// If not given, the value of `jobs` is used.
    pub jobs_initial: Option<usize>,
    /// Enable verbose messages
    pub verbose: bool,
    /// Watch for file changes and regenerate tiles automatically instead of
    /// exiting after generation
    pub watch: bool,
    /// Minimum delay between map generation cycles in watch mode
    pub watch_delay: Delay,
    /// Format of generated map tiles
    pub image_format: ImageFormat,
    /// Edition of the input Minecraft save data
    pub edition: Edition,
    /// Also render the nether dimension
    pub nether: bool,
    /// Also render the end dimension
    pub end: bool,
    /// Emit derived per-chunk and marker data to the given directory
    pub emit_overlays: Option<String>,
    /// Emit per-player data to the given directory (Java Edition)
    pub emit_player_data: Option<String>,
    /// Override for the player data directory
    pub player_data_dir: Option<String>,
    /// Override for the player statistics directory
    pub stats_dir: Option<String>,
    /// Explicit player name cache files (overriding auto-detection)
    pub usercache: Vec<String>,
    /// Emit world-level statistics to the given directory
    pub emit_world_stats: Option<String>,
    /// Only recompute per-region emit data for regions modified after this Unix time
    pub since: Option<i64>,
    /// Generate viewer overlay layers from the per-chunk overlay data
    pub overlay_layers: bool,
    /// Generate an additional topographic (height) map layer
    pub height_layer: bool,
    /// Generate an additional biome/climate map layer
    pub biome_layer: bool,
    /// Generate an additional cave/underground map layer
    pub cave_layer: bool,
    /// Generate a mob-spawn (spawn-proofing) map layer (Java Edition)
    pub mob_spawn: bool,
    /// Generate a contour (elevation lines) map layer
    pub contour_layer: bool,
    /// Generate viewer overlays for generated structure bounding boxes (Java Edition)
    pub structures: bool,
    /// Generate viewer marker layers for points of interest (Java Edition)
    pub poi_markers: bool,
    /// Generate viewer marker layers for mobs (Java Edition)
    pub mob_markers: bool,
    /// Generate a high-resolution textured map layer from a resource pack
    pub block_textures: Option<String>,
    /// Per-block texture size in pixels for the textured layer
    pub texture_scale: u32,
    /// How to render unrecognized (for example modded) blocks
    pub unknown_blocks: UnknownBlocks,
    /// Prefix for text of signs to show on the map
    pub sign_prefix: Vec<String>,
    /// Regular expression for text of signs to show on the map
    pub sign_filter: Vec<String>,
    /// Regular expression replacement pattern for sign texts
    ///
    /// Accepts patterns of the form 's/regexp/replacement/'. Transforms
    /// are applied to each line of sign texts separately.
    pub sign_transform: Vec<String>,
    /// Minecraft save directory
    pub input_dir: String,
    /// MinedMap data directory
    pub output_dir: String,
}

impl Args {
    /// The number of threads to use for processing, where `cpus` is the number of logical
    /// CPU cores
    pub open spec fn threads(&self, cpus: usize) -> usize {
        match self.jobs {
            Some(0) => cpus,
            Some(threads) => threads,
            None => 1,
        }
    }

    /// Returns the numbers of threads to use for initial processing and for subsequent
    /// regenerations
    pub fn num_threads(&self, cpus: usize) -> (r: (usize, usize))
        ensures
            r.1 == self.threads(cpus),
            r.0 == (match self.jobs_initial {
                Some(threads) => threads,
                None => self.threads(cpus),
            }),
    {
        let num_threads: usize = match self.jobs {
            Some(0) => cpus,
            Some(threads) => threads,
            None => 1,
        };
        let num_threads_initial: usize = match self.jobs_initial {
            Some(threads) => threads,
            None => num_threads,
        };
        (num_threads_initial, num_threads)
    }
}

/// A single thread is used unless another number is given; zero stands for one thread per
/// logical CPU core
pub proof fn threads_chosen(args: Args, cpus: usize, n: usize)
    ensures
        args.jobs is None ==> args.threads(cpus) == 1,
        args.jobs == Some(0usize) ==> args.threads(cpus) == cpus,
        args.jobs == Some(n) && n > 0 ==> args.threads(cpus) == n,
{
}

} // verus!
