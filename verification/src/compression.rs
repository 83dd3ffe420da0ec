//! Compressed data

use flate2::read::{DeflateDecoder, DeflateEncoder, GzDecoder, ZlibDecoder, ZlibEncoder};
use std::io::Read;
use vstd::prelude::*;

verus! {

/// `std::io::Error`
#[verifier::external_type_specification]
#[verifier::external_body]
pub struct ExIoError(std::io::Error);

/// Bytes compressed with a zlib header
pub uninterp spec fn zlib_encoded(block: Seq<u8>) -> Seq<u8>;

/// The bytes that zlib data stand for, if they do
pub uninterp spec fn zlib_decoded(block: Seq<u8>) -> Option<Seq<u8>>;

/// Bytes compressed without a header
pub uninterp spec fn deflated(block: Seq<u8>) -> Seq<u8>;

/// The bytes that raw DEFLATE data stand for, if they do
pub uninterp spec fn inflated(block: Seq<u8>) -> Option<Seq<u8>>;

/// The bytes that gzip data stand for, if they do
pub uninterp spec fn gunzipped(data: Seq<u8>) -> Option<Seq<u8>>;

/// `flate2::read::ZlibEncoder` with the default compression level: the compressed bytes
/// depend on the bytes alone, and compressing bytes that are in memory does not fail
#[verifier::external_body]
fn zlib_encode(block: &[u8]) -> (r: Result<Vec<u8>, std::io::Error>)
    ensures
        r is Ok,
        r matches Ok(out) ==> out@ == zlib_encoded(block@),
{
    let mut out = Vec::new();
    ZlibEncoder::new(block, flate2::Compression::default()).read_to_end(&mut out)?;
    Ok(out)
}

/// `flate2::read::ZlibDecoder`: whether bytes can be decompressed, and to what, depends on
/// the bytes alone; compressed bytes are restored
#[verifier::external_body]
fn zlib_decode(block: &[u8]) -> (r: Result<Vec<u8>, std::io::Error>)
    ensures
        r is Ok <==> zlib_decoded(block@) is Some,
        r matches Ok(out) ==> zlib_decoded(block@) == Some(out@),
        match r {
            Ok(out) => forall|b: Seq<u8>| #[trigger] zlib_encoded(b) == block@ ==> out@ == b,
            Err(_) => forall|b: Seq<u8>| #[trigger] zlib_encoded(b) != block@,
        },
{
    let mut out = Vec::new();
    ZlibDecoder::new(block).read_to_end(&mut out)?;
    Ok(out)
}

/// `flate2::read::DeflateEncoder` with the default compression level: the compressed bytes
/// depend on the bytes alone, and compressing bytes that are in memory does not fail
#[verifier::external_body]
fn deflate(block: &[u8]) -> (r: Result<Vec<u8>, std::io::Error>)
    ensures
        r is Ok,
        r matches Ok(out) ==> out@ == deflated(block@),
{
    let mut out = Vec::new();
    DeflateEncoder::new(block, flate2::Compression::default()).read_to_end(&mut out)?;
    Ok(out)
}

/// `flate2::read::DeflateDecoder`: whether bytes can be decompressed, and to what, depends on
/// the bytes alone; compressed bytes are restored
#[verifier::external_body]
fn inflate(block: &[u8]) -> (r: Result<Vec<u8>, std::io::Error>)
    ensures
        r is Ok <==> inflated(block@) is Some,
        r matches Ok(out) ==> inflated(block@) == Some(out@),
        match r {
            Ok(out) => forall|b: Seq<u8>| #[trigger] deflated(b) == block@ ==> out@ == b,
            Err(_) => forall|b: Seq<u8>| #[trigger] deflated(b) != block@,
        },
{
    let mut out = Vec::new();
    DeflateDecoder::new(block).read_to_end(&mut out)?;
    Ok(out)
}

/// `flate2::read::GzDecoder`: whether bytes can be decompressed, and to what, depends on the
/// bytes alone
#[verifier::external_body]
fn gunzip(data: &[u8]) -> (r: Result<Vec<u8>, std::io::Error>)
    ensures
        r is Ok <==> gunzipped(data@) is Some,
        r matches Ok(out) ==> gunzipped(data@) == Some(out@),
{
    let mut out = Vec::new();
    GzDecoder::new(data).read_to_end(&mut out)?;
    Ok(out)
}

/// Compression types that Mojang's fork of LevelDB adds
#[derive(Debug, Clone, Copy, PartialEq, Eq, Structural)]
pub enum MojangCompressor {
    /// zlib
    Zlib,
    /// Raw DEFLATE (no header)
    RawZlib,
}

impl MojangCompressor {
    /// The number that stands for the compression type in a database
    pub open spec fn spec_id(self) -> u8 {
        match self {
            MojangCompressor::Zlib => 2,
            MojangCompressor::RawZlib => 4,
        }
    }

    /// Returns the number that stands for the compression type in a database
    pub fn id(self) -> (r: u8)
        ensures
            r == self.spec_id(),
    {
        match self {
            MojangCompressor::Zlib => 2,
            MojangCompressor::RawZlib => 4,
        }
    }

    /// A compressed block
    pub open spec fn encoded(self, block: Seq<u8>) -> Seq<u8> {
        match self {
            MojangCompressor::Zlib => zlib_encoded(block),
            MojangCompressor::RawZlib => deflated(block),
        }
    }

    /// The block that a compressed block stands for, if it does
    pub open spec fn decoded(self, block: Seq<u8>) -> Option<Seq<u8>> {
        match self {
            MojangCompressor::Zlib => zlib_decoded(block),
            MojangCompressor::RawZlib => inflated(block),
        }
    }

    /// Compresses a block
    pub fn encode(self, block: Vec<u8>) -> (r: Result<Vec<u8>, std::io::Error>)
        ensures
            r matches Ok(out) && out@ == self.encoded(block@),
    {
        match self {
            MojangCompressor::Zlib => zlib_encode(block.as_slice()),
            MojangCompressor::RawZlib => deflate(block.as_slice()),
        }
    }

    /// Decompresses a block
    ///
    /// A block that was compressed with the same compression type is restored.
    pub fn decode(self, block: Vec<u8>) -> (r: Result<Vec<u8>, std::io::Error>)
        ensures
            r is Ok <==> self.decoded(block@) is Some,
            r matches Ok(out) ==> self.decoded(block@) == Some(out@),
            forall|b: Seq<u8>| #[trigger]
                self.encoded(b) == block@ ==> (r matches Ok(out) && out@ == b),
    {
        match self {
            MojangCompressor::Zlib => zlib_decode(block.as_slice()),
            MojangCompressor::RawZlib => inflate(block.as_slice()),
        }
    }
}

/// Data begins like a gzip file
pub open spec fn is_gzip(raw: Seq<u8>) -> bool {
    raw.len() >= 2 && raw[0] == 0x1f && raw[1] == 0x8b
}

/// Returns file contents as NBT bytes, transparently decompressing gzip if present
pub fn read_nbt(raw: Vec<u8>) -> (r: Result<Vec<u8>, std::io::Error>)
    ensures
        !is_gzip(raw@) ==> (r matches Ok(data) && data@ == raw@),
        is_gzip(raw@) ==> (r is Ok <==> gunzipped(raw@) is Some),
        is_gzip(raw@) ==> (r matches Ok(data) ==> gunzipped(raw@) == Some(data@)),
{
    // gzip files start with the magic bytes 0x1f 0x8b
    if raw.len() >= 2 && raw[0] == 0x1f && raw[1] == 0x8b {
        gunzip(raw.as_slice())
    } else {
        Ok(raw)
    }
}

/// Each compression type has its number in a database and its kind of data
pub proof fn compression_types(block: Seq<u8>)
    ensures
        MojangCompressor::Zlib.spec_id() == 2,
        MojangCompressor::RawZlib.spec_id() == 4,
        MojangCompressor::Zlib.encoded(block) == zlib_encoded(block),
        MojangCompressor::Zlib.decoded(block) == zlib_decoded(block),
        MojangCompressor::RawZlib.encoded(block) == deflated(block),
        MojangCompressor::RawZlib.decoded(block) == inflated(block),
{
}

/// Gzip data begin with two magic bytes, and other data do not
pub proof fn gzip_recognized(rest: Seq<u8>, first: u8, second: u8)
    ensures
        is_gzip(seq![0x1fu8, 0x8bu8] + rest),
        is_gzip(seq![first, second] + rest) ==> first == 0x1f && second == 0x8b,
        !is_gzip(Seq::empty()),
        !is_gzip(seq![first]),
{
    let magic = seq![0x1fu8, 0x8bu8] + rest;
    assert(magic[0] == 0x1f && magic[1] == 0x8b);
    let other = seq![first, second] + rest;
    assert(other[0] == first && other[1] == second);
}

} // verus!
