//! Verified core of the MinedMap renderer.

pub mod args;
pub mod bedrock;
pub mod bytes;
pub mod chunk;
pub mod column;
pub mod common;
pub mod compression;
pub mod de;
pub mod flat;
pub mod fs;
pub mod generate;
pub mod heightmap;
pub mod indexed;
pub mod java_nbt;
pub mod java_random;
pub mod json;
pub mod layer;
pub mod mob;
pub mod overlay;
pub mod paths;
pub mod patterns;
pub mod pixels;
pub mod player;
pub mod poi;
pub mod region_cache;
pub mod resource;
pub mod select;
pub mod sorting;
pub mod text;
pub mod texture;
pub mod types;
pub mod world_stats;
