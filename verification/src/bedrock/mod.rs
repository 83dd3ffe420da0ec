//! Bedrock Edition (LevelDB) support

pub mod blocks;
pub mod keys;
pub mod layout;
pub mod nbt;
pub mod player;
pub mod subchunk;
pub mod within;
