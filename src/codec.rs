//! The compression codecs behind the method tags: stored, DEFLATE, bzip2,
//! Zstandard, LZMA and XZ. Any other method is refused.

use crate::error::ZipError;
use crate::fields::CompressionMethod;
use crate::le::bytes_to_vec;
use std::io::{Cursor, Read, Write};
use vstd::prelude::*;

verus! {

/// The raw DEFLATE stream the encoder makes of `data` at the default level.
pub uninterp spec fn deflated(data: Seq<u8>) -> Seq<u8>;

/// What inflating the raw DEFLATE stream `data` yields, if it decodes.
pub uninterp spec fn inflated(data: Seq<u8>) -> Option<Seq<u8>>;

/// The bzip2 stream the encoder makes of `data` at the default level.
pub uninterp spec fn bzip2_compressed(data: Seq<u8>) -> Seq<u8>;

/// What decoding the bzip2 stream `data` yields, if it decodes.
pub uninterp spec fn bzip2_decompressed(data: Seq<u8>) -> Option<Seq<u8>>;

/// The Zstandard frame the encoder makes of `data` at the default level.
pub uninterp spec fn zstd_compressed(data: Seq<u8>) -> Seq<u8>;

/// What decoding the Zstandard frames `data` yields, if they decode.
pub uninterp spec fn zstd_decompressed(data: Seq<u8>) -> Option<Seq<u8>>;

/// The LZMA stream the encoder makes of `data`.
pub uninterp spec fn lzma_compressed(data: Seq<u8>) -> Seq<u8>;

/// What decoding the LZMA stream `data` yields, if it decodes.
pub uninterp spec fn lzma_decompressed(data: Seq<u8>) -> Option<Seq<u8>>;

/// The XZ stream the encoder makes of `data`.
pub uninterp spec fn xz_compressed(data: Seq<u8>) -> Seq<u8>;

/// What decoding the XZ stream `data` yields, if it decodes.
pub uninterp spec fn xz_decompressed(data: Seq<u8>) -> Option<Seq<u8>>;

/// Relies on `flate2::write::DeflateEncoder` with the default level writing
/// into a `Vec`, which never reports an error: the encoded stream.
#[verifier::external_body]
fn deflate(data: &[u8]) -> (r: Option<Vec<u8>>)
    ensures
        r is Some,
        r matches Some(v) ==> v@ == deflated(data@),
{
    let mut e = flate2::write::DeflateEncoder::new(Vec::new(), flate2::Compression::default());
    e.write_all(data).ok()?;
    e.finish().ok()
}

/// Relies on `flate2::bufread::DeflateDecoder`: the decoded bytes, or `None`
/// where the stream does not decode.
#[verifier::external_body]
fn inflate(data: &[u8]) -> (r: Option<Vec<u8>>)
    ensures
        r matches Some(v) ==> inflated(data@) == Some(v@),
        r is None ==> inflated(data@) is None,
{
    let mut buf = Vec::new();
    flate2::bufread::DeflateDecoder::new(data).read_to_end(&mut buf).ok()?;
    Some(buf)
}

/// Relies on `bzip2::write::BzEncoder` with the default level writing into a
/// `Vec`, which never reports an error: the encoded stream.
#[verifier::external_body]
fn bzip2_encode(data: &[u8]) -> (r: Option<Vec<u8>>)
    ensures
        r is Some,
        r matches Some(v) ==> v@ == bzip2_compressed(data@),
{
    let mut e = bzip2::write::BzEncoder::new(Vec::new(), bzip2::Compression::default());
    e.write_all(data).ok()?;
    e.finish().ok()
}

/// Relies on `bzip2::bufread::BzDecoder`: the decoded bytes, or `None` where
/// the stream does not decode.
#[verifier::external_body]
fn bzip2_decode(data: &[u8]) -> (r: Option<Vec<u8>>)
    ensures
        r matches Some(v) ==> bzip2_decompressed(data@) == Some(v@),
        r is None ==> bzip2_decompressed(data@) is None,
{
    let mut buf = Vec::new();
    bzip2::bufread::BzDecoder::new(data).read_to_end(&mut buf).ok()?;
    Some(buf)
}

/// Relies on `zstd::encode_all` at level 0 (the default): the encoded frame,
/// or `None` where the encoder reports an error.
#[verifier::external_body]
fn zstd_encode(data: &[u8]) -> (r: Option<Vec<u8>>)
    ensures
        r matches Some(v) ==> v@ == zstd_compressed(data@),
{
    zstd::encode_all(data, 0).ok()
}

/// Relies on `zstd::decode_all`: the decoded bytes, or `None` where the input
/// does not decode.
#[verifier::external_body]
fn zstd_decode(data: &[u8]) -> (r: Option<Vec<u8>>)
    ensures
        r matches Some(v) ==> zstd_decompressed(data@) == Some(v@),
        r is None ==> zstd_decompressed(data@) is None,
{
    zstd::decode_all(data).ok()
}

/// Relies on `lzma_rs::lzma_compress` from a `Cursor` into a `Vec`, which never
/// reports an error: the encoded stream.
#[verifier::external_body]
fn lzma_encode(data: &[u8]) -> (r: Option<Vec<u8>>)
    ensures
        r is Some,
        r matches Some(v) ==> v@ == lzma_compressed(data@),
{
    let mut out = Vec::new();
    lzma_rs::lzma_compress(&mut Cursor::new(data), &mut out).ok()?;
    Some(out)
}

/// Relies on `lzma_rs::lzma_decompress`: the decoded bytes, or `None` where
/// the stream does not decode.
#[verifier::external_body]
fn lzma_decode(data: &[u8]) -> (r: Option<Vec<u8>>)
    ensures
        r matches Some(v) ==> lzma_decompressed(data@) == Some(v@),
        r is None ==> lzma_decompressed(data@) is None,
{
    let mut out = Vec::new();
    lzma_rs::lzma_decompress(&mut Cursor::new(data), &mut out).ok()?;
    Some(out)
}

/// Relies on `lzma_rs::xz_compress` from a `Cursor` into a `Vec`, which never
/// reports an error: the encoded stream.
#[verifier::external_body]
fn xz_encode(data: &[u8]) -> (r: Option<Vec<u8>>)
    ensures
        r is Some,
        r matches Some(v) ==> v@ == xz_compressed(data@),
{
    let mut out = Vec::new();
    lzma_rs::xz_compress(&mut Cursor::new(data), &mut out).ok()?;
    Some(out)
}

/// Relies on `lzma_rs::xz_decompress`: the decoded bytes, or `None` where the
/// stream does not decode.
#[verifier::external_body]
fn xz_decode(data: &[u8]) -> (r: Option<Vec<u8>>)
    ensures
        r matches Some(v) ==> xz_decompressed(data@) == Some(v@),
        r is None ==> xz_decompressed(data@) is None,
{
    let mut out = Vec::new();
    lzma_rs::xz_decompress(&mut Cursor::new(data), &mut out).ok()?;
    Some(out)
}

/// The methods with a codec here.
pub open spec fn is_supported(m: u16) -> bool {
    m == CompressionMethod::STORED || m == CompressionMethod::DEFLATED
        || m == CompressionMethod::BZIP2 || m == CompressionMethod::ZSTD
        || m == CompressionMethod::LZMA || m == CompressionMethod::XZ
}

/// What method `m` makes of `data`, for a supported method.
pub open spec fn compressed_by(m: u16, data: Seq<u8>) -> Seq<u8> {
    if m == CompressionMethod::STORED {
        data
    } else if m == CompressionMethod::DEFLATED {
        deflated(data)
    } else if m == CompressionMethod::BZIP2 {
        bzip2_compressed(data)
    } else if m == CompressionMethod::ZSTD {
        zstd_compressed(data)
    } else if m == CompressionMethod::LZMA {
        lzma_compressed(data)
    } else {
        xz_compressed(data)
    }
}

/// What decoding `data` with method `m` yields, for a supported method.
pub open spec fn decompressed_by(m: u16, data: Seq<u8>) -> Option<Seq<u8>> {
    if m == CompressionMethod::STORED {
        Some(data)
    } else if m == CompressionMethod::DEFLATED {
        inflated(data)
    } else if m == CompressionMethod::BZIP2 {
        bzip2_decompressed(data)
    } else if m == CompressionMethod::ZSTD {
        zstd_decompressed(data)
    } else if m == CompressionMethod::LZMA {
        lzma_decompressed(data)
    } else {
        xz_decompressed(data)
    }
}

/// Compresses `data` with `method`. Stored data is copied as it is; an
/// unsupported method is refused; a codec that fails is reported.
pub fn compress(method: CompressionMethod, data: &[u8]) -> (r: Result<Vec<u8>, ZipError>)
    ensures
        !is_supported(method.0) ==> r == Err::<Vec<u8>, ZipError>(ZipError::UnsupportedMethod(method.0)),
        method.0 == CompressionMethod::STORED ==> (r matches Ok(v) && v@ == data@),
        is_supported(method.0) && method.0 != CompressionMethod::ZSTD ==> r is Ok,
        r matches Ok(v) ==> is_supported(method.0) && v@ == compressed_by(method.0, data@),
        is_supported(method.0) ==> (r matches Err(e) ==> e == ZipError::CodecFailed(method.0)),
{
    let m = method.0;
    let out = if m == CompressionMethod::STORED {
        Some(bytes_to_vec(data))
    } else if m == CompressionMethod::DEFLATED {
        deflate(data)
    } else if m == CompressionMethod::BZIP2 {
        bzip2_encode(data)
    } else if m == CompressionMethod::ZSTD {
        zstd_encode(data)
    } else if m == CompressionMethod::LZMA {
        lzma_encode(data)
    } else if m == CompressionMethod::XZ {
        xz_encode(data)
    } else {
        return Err(ZipError::UnsupportedMethod(m));
    };
    match out {
        Some(v) => Ok(v),
        None => Err(ZipError::CodecFailed(m)),
    }
}

/// Decompresses `data` with `method`. Stored data is copied as it is; an
/// unsupported method is refused; input that does not decode is reported.
pub fn decompress(method: CompressionMethod, data: &[u8]) -> (r: Result<Vec<u8>, ZipError>)
    ensures
        !is_supported(method.0) ==> r == Err::<Vec<u8>, ZipError>(ZipError::UnsupportedMethod(method.0)),
        is_supported(method.0) ==> (r is Ok <==> decompressed_by(method.0, data@) is Some),
        r matches Ok(v) ==> decompressed_by(method.0, data@) == Some(v@),
        is_supported(method.0) ==> (r matches Err(e) ==> e == ZipError::CodecFailed(method.0)),
{
    let m = method.0;
    let out = if m == CompressionMethod::STORED {
        Some(bytes_to_vec(data))
    } else if m == CompressionMethod::DEFLATED {
        inflate(data)
    } else if m == CompressionMethod::BZIP2 {
        bzip2_decode(data)
    } else if m == CompressionMethod::ZSTD {
        zstd_decode(data)
    } else if m == CompressionMethod::LZMA {
        lzma_decode(data)
    } else if m == CompressionMethod::XZ {
        xz_decode(data)
    } else {
        return Err(ZipError::UnsupportedMethod(m));
    };
    match out {
        Some(v) => Ok(v),
        None => Err(ZipError::CodecFailed(m)),
    }
}

/// Stored data comes back unchanged from a compress and decompress round
/// trip. (For the other methods the round trip rests on the codecs and is
/// not stated here.)
pub proof fn lemma_stored_round_trip(data: Seq<u8>)
    ensures
        decompressed_by(CompressionMethod::STORED, compressed_by(CompressionMethod::STORED, data)) == Some(data),
{
}

} // verus!
