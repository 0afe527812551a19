//! Byte-stream codecs: zstd and gzip.
use vstd::prelude::*;
use std::io::Read;
use std::io::Write;

verus! {

/// What `zstd::decode_all` makes of compressed bytes: the decompressed
/// bytes, or nothing when it fails.
pub uninterp spec fn zstd_decompressed(b: Seq<u8>) -> Option<Seq<u8>>;

/// What `zstd::encode_all` makes of bytes at a level: a zstd frame, or
/// nothing when it fails.
pub uninterp spec fn zstd_compressed(b: Seq<u8>, level: i32) -> Option<Seq<u8>>;

/// What a `flate2` gzip encoder at a level makes of bytes.
pub uninterp spec fn gzip_compressed(b: Seq<u8>, level: u32) -> Option<Seq<u8>>;

/// What a `flate2` gzip decoder makes of bytes read to their end: the
/// decompressed bytes, or nothing when they are not a gzip stream.
pub uninterp spec fn gzip_decompressed(b: Seq<u8>) -> Option<Seq<u8>>;

/// Whether bytes begin with a whole gzip header's worth of bytes (ten) and
/// the gzip identification bytes `1f 8b`.
pub open spec fn gzip_header_start(b: Seq<u8>) -> bool {
    b.len() >= 10 && b[0] == 0x1f && b[1] == 0x8b
}

/// What decoding bytes as gzip gives: nothing without a gzip header start,
/// else what the decoder makes of them.
pub open spec fn gzip_result(b: Seq<u8>) -> Option<Seq<u8>> {
    if gzip_header_start(b) {
        gzip_decompressed(b)
    } else {
        None
    }
}

/// Whether bytes begin with the zstd frame magic number `28 b5 2f fd`.
pub open spec fn zstd_magic_start(b: Seq<u8>) -> bool {
    b.len() >= 4 && b[0] == 0x28 && b[1] == 0xb5 && b[2] == 0x2f && b[3] == 0xfd
}

/// Decompresses a zstd stream (`zstd::decode_all`). The bytes are a
/// function of the input; the text of a failure is the decoder's message
/// and is not stated.
#[verifier::external_body]
pub(crate) fn zstd_decode(b: &[u8]) -> (r: Result<Vec<u8>, String>)
    ensures
        match r {
            Ok(v) => zstd_decompressed(b@) == Some(v@),
            Err(_) => zstd_decompressed(b@) is None,
        },
{
    match zstd::decode_all(b) {
        Ok(v) => Ok(v),
        Err(e) => Err(e.to_string()),
    }
}

/// Compresses into a zstd frame (`zstd::encode_all`; level 0 is zstd's
/// default). The bytes are a function of the input and the level; a frame
/// starts with the zstd magic number and decompresses to the input. The
/// text of a failure is not stated.
#[verifier::external_body]
pub(crate) fn zstd_encode(b: &[u8], level: i32) -> (r: Result<Vec<u8>, String>)
    ensures
        match r {
            Ok(v) => zstd_compressed(b@, level) == Some(v@) && zstd_magic_start(v@)
                && zstd_decompressed(v@) == Some(b@),
            Err(_) => zstd_compressed(b@, level) is None,
        },
{
    match zstd::encode_all(b, level) {
        Ok(v) => Ok(v),
        Err(e) => Err(e.to_string()),
    }
}

/// Compresses into a gzip stream (`flate2::write::GzEncoder` with
/// `Compression::new(level)`, written then finished), at a level from 0 to
/// 9 as `Compression::new` documents. The bytes are a
/// function of the input and the level; the stream starts with a gzip
/// header and the gzip decoder gives back the input. The text of a failure
/// is not stated.
#[verifier::external_body]
pub(crate) fn gzip_encode(b: &[u8], level: u32) -> (r: Result<Vec<u8>, String>)
    requires
        level <= 9,
    ensures
        match r {
            Ok(v) => gzip_compressed(b@, level) == Some(v@) && gzip_header_start(v@) && gzip_decompressed(v@)
                == Some(b@),
            Err(_) => gzip_compressed(b@, level) is None,
        },
{
    let mut encoder = flate2::write::GzEncoder::new(Vec::new(), flate2::Compression::new(level));
    match encoder.write_all(b) {
        Ok(()) => {},
        Err(e) => {
            return Err(e.to_string());
        },
    }
    match encoder.finish() {
        Ok(v) => Ok(v),
        Err(e) => Err(e.to_string()),
    }
}

/// Decompresses a gzip stream (`flate2::read::GzDecoder`, read to the
/// end). The bytes are a function of the input; the decoder refuses bytes
/// that do not start with a ten-byte header beginning `1f 8b`. The text of
/// a failure is not stated.
#[verifier::external_body]
pub(crate) fn gzip_decode(b: &[u8]) -> (r: Result<Vec<u8>, String>)
    ensures
        match r {
            Ok(v) => gzip_header_start(b@) && gzip_decompressed(b@) == Some(v@),
            Err(_) => !gzip_header_start(b@) || gzip_decompressed(b@) is None,
        },
{
    let mut decoder = flate2::read::GzDecoder::new(b);
    let mut out = Vec::new();
    match decoder.read_to_end(&mut out) {
        Ok(_) => Ok(out),
        Err(e) => Err(e.to_string()),
    }
}

} // verus!
