//! The compression stage: a pass-through mode, a high-ratio streaming
//! algorithm (zstd) and classic deflate (zlib). Which algorithm ran is
//! recorded in the container header by a fixed tag; only these three
//! exist, and none may be substituted.

use crate::error::RustfoilError;
use std::io::Read;
use std::io::Write;
use vstd::prelude::*;

verus! {

/// The compression algorithm selection, recorded in the container header.
#[derive(Clone, Copy, PartialEq, Eq, Structural)]
pub enum CompressionFlag {
    /// Pass-through: the payload is the serialized manifest itself.
    Off,
    /// The high-ratio streaming algorithm.
    ZSTD,
    /// Classic deflate with a zlib wrapper.
    Zlib,
}

/// The header tag for each algorithm; fixed by the external reader.
pub open spec fn compression_tag(c: CompressionFlag) -> u8 {
    match c {
        CompressionFlag::Off => 0x00,
        CompressionFlag::ZSTD => 0x0D,
        CompressionFlag::Zlib => 0x0E,
    }
}

impl CompressionFlag {
    /// The header tag for this algorithm.
    pub fn tag(&self) -> (r: u8)
        ensures
            r == compression_tag(*self),
    {
        match self {
            CompressionFlag::Off => 0x00,
            CompressionFlag::ZSTD => 0x0D,
            CompressionFlag::Zlib => 0x0E,
        }
    }
}

/// What zstd decompression yields on `b`: the original bytes when `b` is
/// a frame zstd can decode, nothing otherwise.
pub uninterp spec fn zstd_inflate(b: Seq<u8>) -> Option<Seq<u8>>;

/// What zlib decompression yields on `b`.
pub uninterp spec fn zlib_inflate(b: Seq<u8>) -> Option<Seq<u8>>;

/// What decompressing `b` under algorithm `c` yields.
pub open spec fn inflate_model(b: Seq<u8>, c: CompressionFlag) -> Option<Seq<u8>> {
    match c {
        CompressionFlag::Off => Some(b),
        CompressionFlag::ZSTD => zstd_inflate(b),
        CompressionFlag::Zlib => zlib_inflate(b),
    }
}

/// Relies on `zstd::stream::encode_all` at the default level: decoding
/// what it produced yields the input bytes back.
#[verifier::external_body]
fn zstd_compress(data: &[u8]) -> (r: Result<Vec<u8>, ()>)
    ensures
        r matches Ok(v) ==> zstd_inflate(v@) == Some(data@),
{
    zstd::stream::encode_all(data, 0).map_err(|_| ())
}

/// Relies on `zstd::stream::decode_all`: it decodes exactly the frames
/// zstd encoding produces, and rejects other inputs.
#[verifier::external_body]
fn zstd_decompress(data: &[u8]) -> (r: Result<Vec<u8>, ()>)
    ensures
        r matches Ok(v) ==> zstd_inflate(data@) == Some(v@),
        zstd_inflate(data@) is Some ==> r is Ok,
{
    zstd::stream::decode_all(data).map_err(|_| ())
}

/// Relies on `flate2::write::ZlibEncoder` at the default level: decoding
/// what it produced yields the input bytes back.
#[verifier::external_body]
fn zlib_compress(data: &[u8]) -> (r: Result<Vec<u8>, ()>)
    ensures
        r matches Ok(v) ==> zlib_inflate(v@) == Some(data@),
{
    let mut enc = flate2::write::ZlibEncoder::new(Vec::new(), flate2::Compression::default());
    enc.write_all(data).map_err(|_| ())?;
    enc.finish().map_err(|_| ())
}

/// Relies on `flate2::read::ZlibDecoder`: it decodes exactly the streams
/// zlib encoding produces, and rejects other inputs.
#[verifier::external_body]
fn zlib_decompress(data: &[u8]) -> (r: Result<Vec<u8>, ()>)
    ensures
        r matches Ok(v) ==> zlib_inflate(data@) == Some(v@),
        zlib_inflate(data@) is Some ==> r is Ok,
{
    let mut out = Vec::new();
    let mut dec = flate2::read::ZlibDecoder::new(data);
    dec.read_to_end(&mut out).map_err(|_| ())?;
    Ok(out)
}

/// Compresses `data` under the selected algorithm. On success the output
/// is a payload whose decompression under the same algorithm yields
/// `data` back — the round-trip law. Pass-through never fails and copies
/// the bytes unchanged.
pub fn compress(data: &[u8], flag: CompressionFlag) -> (r: Result<Vec<u8>, RustfoilError>)
    ensures
        r matches Ok(v) ==> inflate_model(v@, flag) == Some(data@),
        flag == CompressionFlag::Off ==> (r matches Ok(v) && v@ == data@),
        r matches Err(e) ==> e matches RustfoilError::CompressionFailed,
{
    match flag {
        CompressionFlag::Off => Ok(vstd::slice::slice_to_vec(data)),
        CompressionFlag::ZSTD => match zstd_compress(data) {
            Ok(v) => Ok(v),
            Err(_) => Err(RustfoilError::CompressionFailed),
        },
        CompressionFlag::Zlib => match zlib_compress(data) {
            Ok(v) => Ok(v),
            Err(_) => Err(RustfoilError::CompressionFailed),
        },
    }
}

/// Decompresses `data` under the selected algorithm. Succeeds exactly on
/// the inputs the algorithm can decode, and then returns exactly the
/// bytes whose compression `data` is.
pub fn decompress(data: &[u8], flag: CompressionFlag) -> (r: Result<Vec<u8>, RustfoilError>)
    ensures
        r matches Ok(v) ==> inflate_model(data@, flag) == Some(v@),
        inflate_model(data@, flag) is Some ==> r is Ok,
        r matches Err(e) ==> e matches RustfoilError::DecompressionFailed,
{
    match flag {
        CompressionFlag::Off => Ok(vstd::slice::slice_to_vec(data)),
        CompressionFlag::ZSTD => match zstd_decompress(data) {
            Ok(v) => Ok(v),
            Err(_) => Err(RustfoilError::DecompressionFailed),
        },
        CompressionFlag::Zlib => match zlib_decompress(data) {
            Ok(v) => Ok(v),
            Err(_) => Err(RustfoilError::DecompressionFailed),
        },
    }
}

/// Law: compression round-trips. `compress` guarantees of its output
/// `packed` that `inflate_model(packed, flag) == Some(data)`, and
/// `decompress` returns exactly `inflate_model` of its input; together,
/// decompressing a compression of `data` under any algorithm yields
/// `data` and nothing else.
pub proof fn lemma_compression_round_trip(
    data: Seq<u8>,
    packed: Seq<u8>,
    unpacked: Seq<u8>,
    flag: CompressionFlag,
)
    requires
        inflate_model(packed, flag) == Some(data),
        inflate_model(packed, flag) == Some(unpacked),
    ensures
        unpacked == data,
{
}

} // verus!
