//! Zlib streams, as the frames of a compressed connection carry them.

use crate::cursor::IoErrorKind;
use crate::text::string_from_utf8;
use flate2::read::{ZlibDecoder, ZlibEncoder};
use flate2::Compression;
use std::io::Read;
use vstd::prelude::*;
use vstd::utf8::{decode_utf8, valid_utf8};

verus! {

/// The zlib stream that the compressor makes of `data` at its default
/// level, or `None` where it makes none.
pub uninterp spec fn zlib_deflated(data: Seq<u8>) -> Option<Seq<u8>>;

/// The data that the decompressor reads out of the zlib stream at the
/// front of `stream`, or `None` where it finds no complete stream there.
pub uninterp spec fn zlib_inflated(stream: Seq<u8>) -> Option<Seq<u8>>;

/// flate2's `read::ZlibEncoder` at `Compression::default()`, read to its
/// end: the zlib stream of `data`, which the decompressor turns back into
/// `data`, or `None` where reading fails. Whether it fails depends on
/// `data` alone; nothing is promised about when.
#[verifier::external_body]
pub(crate) fn zlib_encode(data: &[u8]) -> (r: Option<Vec<u8>>)
    ensures
        match r {
            Some(stream) => zlib_deflated(data@) == Some(stream@) && zlib_inflated(stream@)
                == Some(data@),
            None => zlib_deflated(data@) is None,
        },
{
    let mut stream = Vec::new();
    match ZlibEncoder::new(data, Compression::default()).read_to_end(&mut stream) {
        Ok(_) => Some(stream),
        Err(_) => None,
    }
}

/// flate2's `read::ZlibDecoder`, read to its end: the data of the zlib
/// stream at the front of `stream`, or `None` where reading fails.
#[verifier::external_body]
pub(crate) fn zlib_decode(stream: &[u8]) -> (r: Option<Vec<u8>>)
    ensures
        match r {
            Some(data) => zlib_inflated(stream@) == Some(data@),
            None => zlib_inflated(stream@) is None,
        },
{
    let mut data = Vec::new();
    match ZlibDecoder::new(stream).read_to_end(&mut data) {
        Ok(_) => Some(data),
        Err(_) => None,
    }
}

/// Decompresses the zlib stream at the front of `bytes`.
pub fn decompress(bytes: &[u8]) -> (r: Option<Vec<u8>>)
    ensures
        match r {
            Some(data) => zlib_inflated(bytes@) == Some(data@),
            None => zlib_inflated(bytes@) is None,
        },
{
    zlib_decode(bytes)
}

/// What decompressing `bytes` and reading the data as text comes to.
pub open spec fn inflated_text(bytes: Seq<u8>) -> Result<Seq<char>, IoErrorKind> {
    match zlib_inflated(bytes) {
        None => Err(IoErrorKind::InvalidInput),
        Some(data) => if valid_utf8(data) {
            Ok(decode_utf8(data))
        } else {
            Err(IoErrorKind::InvalidData)
        },
    }
}

/// Decompresses the zlib stream at the front of `bytes` and reads the data
/// as UTF-8 text.
pub fn decode_reader(bytes: &[u8]) -> (r: Result<String, IoErrorKind>)
    ensures
        match inflated_text(bytes@) {
            Ok(text) => r matches Ok(s) && s@ == text,
            Err(e) => r matches Err(got) && got == e,
        },
{
    match zlib_decode(bytes) {
        None => Err(IoErrorKind::InvalidInput),
        Some(data) => match string_from_utf8(data) {
            Some(s) => Ok(s),
            None => Err(IoErrorKind::InvalidData),
        },
    }
}

} // verus!
