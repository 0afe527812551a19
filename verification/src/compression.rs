//! Compressing and decompressing output files' bytes.
use vstd::prelude::*;
use crate::codecs::{gzip_compressed, gzip_decode, gzip_encode, gzip_result, zstd_compressed, zstd_decode, zstd_decompressed, zstd_encode};

verus! {

/// How to compress.
#[derive(Debug, Clone, Copy, PartialEq, Eq, Structural)]
pub enum CompressionAlgorithm {
    Gzip,
    Zstd,
    Lz4,
    /// Bytes kept as they are.
    Uncompressed,
}

/// A compression level, at most the algorithm's maximum.
#[derive(Debug, Clone, Copy, PartialEq, Eq, Structural)]
pub struct CompressionLevel(pub u8);

/// The highest level of an algorithm: 9 for gzip, 22 for zstd, 16 for
/// LZ4, 0 when uncompressed.
pub open spec fn max_level(a: CompressionAlgorithm) -> u8 {
    match a {
        CompressionAlgorithm::Gzip => 9,
        CompressionAlgorithm::Zstd => 22,
        CompressionAlgorithm::Lz4 => 16,
        CompressionAlgorithm::Uncompressed => 0,
    }
}

impl CompressionLevel {
    /// The level, capped at the algorithm's maximum.
    pub fn new(level: u8, algorithm: CompressionAlgorithm) -> (l: CompressionLevel)
        ensures
            l.0 == (if level < max_level(algorithm) {
                level
            } else {
                max_level(algorithm)
            }),
    {
        let max_level: u8 = match algorithm {
            CompressionAlgorithm::Gzip => 9,
            CompressionAlgorithm::Zstd => 22,
            CompressionAlgorithm::Lz4 => 16,
            CompressionAlgorithm::Uncompressed => 0,
        };
        CompressionLevel(if level < max_level { level } else { max_level })
    }
}

/// Why bytes could not be compressed.
#[derive(Debug, Clone, PartialEq, Eq)]
pub enum CompressionError {
    /// LZ4 is not available.
    Lz4NotImplemented,
    /// The encoder failed, with its message.
    Encoder(String),
}

/// Compresses bytes: gzip or zstd at the level, unchanged when
/// uncompressed; LZ4 is refused. A gzip level is one from 0 to 9.
pub fn compress_bytes(input: &[u8], algorithm: CompressionAlgorithm, level: CompressionLevel) -> (r: Result<
    Vec<u8>,
    CompressionError,
>)
    requires
        algorithm == CompressionAlgorithm::Gzip ==> level.0 <= 9,
    ensures
        match algorithm {
            CompressionAlgorithm::Gzip => match gzip_compressed(input@, level.0 as u32) {
                Some(v) => r matches Ok(o) && o@ == v,
                None => r matches Err(CompressionError::Encoder(_)),
            },
            CompressionAlgorithm::Zstd => match zstd_compressed(input@, level.0 as i32) {
                Some(v) => r matches Ok(o) && o@ == v,
                None => r matches Err(CompressionError::Encoder(_)),
            },
            CompressionAlgorithm::Lz4 => r matches Err(CompressionError::Lz4NotImplemented),
            CompressionAlgorithm::Uncompressed => r matches Ok(o) && o@ == input@,
        },
        algorithm != CompressionAlgorithm::Uncompressed ==> (r matches Ok(o) ==> decompressed_view(o@)
            == input@),
{
    match algorithm {
        CompressionAlgorithm::Gzip => match gzip_encode(input, level.0 as u32) {
            Ok(v) => Ok(v),
            Err(e) => Err(CompressionError::Encoder(e)),
        },
        CompressionAlgorithm::Zstd => match zstd_encode(input, level.0 as i32) {
            Ok(v) => Ok(v),
            Err(e) => Err(CompressionError::Encoder(e)),
        },
        CompressionAlgorithm::Lz4 => Err(CompressionError::Lz4NotImplemented),
        CompressionAlgorithm::Uncompressed => Ok(copy_all(input)),
    }
}

/// A copy of the bytes.
fn copy_all(input: &[u8]) -> (r: Vec<u8>)
    ensures
        r@ == input@,
{
    let mut r: Vec<u8> = Vec::new();
    let mut i: usize = 0;
    while i < input.len()
        invariant
            i <= input@.len(),
            r@ == input@.take(i as int),
        decreases input@.len() - i,
    {
        r.push(input[i]);
        assert(r@ =~= input@.take(i + 1));
        i = i + 1;
    }
    assert(input@.take(i as int) =~= input@);
    r
}

/// What decompressing bytes gives: their gzip decoding, else their zstd
/// decoding, else the bytes themselves.
pub open spec fn decompressed_view(b: Seq<u8>) -> Seq<u8> {
    match gzip_result(b) {
        Some(v) => v,
        None => match zstd_decompressed(b) {
            Some(v) => v,
            None => b,
        },
    }
}

/// Decompresses bytes, trying gzip, then zstd; bytes that are neither come
/// back unchanged.
pub fn decompress_bytes(input: &[u8]) -> (r: Vec<u8>)
    ensures
        r@ == decompressed_view(input@),
{
    match gzip_decode(input) {
        Ok(v) => v,
        Err(_) => match zstd_decode(input) {
            Ok(v) => v,
            Err(_) => copy_all(input),
        },
    }
}

} // verus!
