use vstd::prelude::*;
use crate::error::ResourceError;
use std::io::Read;
use crate::text::{append_decimal, decimal};

verus! {

/// The outcome of decoding a raw deflate stream, as the `flate2` decoder
/// gives it: the decoded bytes, or the text of the error it reports.
pub uninterp spec fn deflate_decoded(data: Seq<u8>) -> Result<Seq<u8>, Seq<char>>;

/// The outcome of decoding zstd frames, as `zstd::stream::decode_all` gives
/// it: the decoded bytes, or the text of the error it reports.
pub uninterp spec fn zstd_decoded(data: Seq<u8>) -> Result<Seq<u8>, Seq<char>>;

/// Decodes a raw deflate stream with `flate2::read::DeflateDecoder`,
/// reading to the end into a buffer of the given starting capacity; claims
/// that the outcome is `deflate_decoded` of the input (the capacity only
/// sizes the buffer).
#[verifier::external_body]
fn inflate_raw(data: &[u8], capacity: usize) -> (r: Result<Vec<u8>, String>)
    ensures
        match r {
            Ok(v) => deflate_decoded(data@) == Ok::<Seq<u8>, Seq<char>>(v@),
            Err(m) => deflate_decoded(data@) == Err::<Seq<u8>, Seq<char>>(m@),
        },
{
    let mut decoder = flate2::read::DeflateDecoder::new(data);
    let mut out = Vec::with_capacity(capacity);
    match decoder.read_to_end(&mut out) {
        Ok(_) => Ok(out),
        Err(e) => Err(e.to_string()),
    }
}

/// Decodes zstd frames with `zstd::stream::decode_all`; claims that the
/// outcome is `zstd_decoded` of the input.
#[verifier::external_body]
fn zstd_decode_all(data: &[u8]) -> (r: Result<Vec<u8>, String>)
    ensures
        match r {
            Ok(v) => zstd_decoded(data@) == Ok::<Seq<u8>, Seq<char>>(v@),
            Err(m) => zstd_decoded(data@) == Err::<Seq<u8>, Seq<char>>(m@),
        },
{
    match zstd::stream::decode_all(data) {
        Ok(v) => Ok(v),
        Err(e) => Err(e.to_string()),
    }
}

/// Message of the error for an unknown compression method.
pub open spec fn unsupported_method_message(method: u16) -> Seq<char> {
    "Unsupported compression method: "@ + decimal(method as nat)
}

/// What decoding entry data stored with `method` gives: the data itself
/// for method 0 (stored), the deflate decoding for 8, the zstd decoding
/// for 93, and an error naming the method for any other.
pub open spec fn decompress_outcome(method: u16, data: Seq<u8>, r: Result<Vec<u8>, ResourceError>) -> bool {
    if method == 0 {
        r matches Ok(v) && v@ == data
    } else if method == 8 || method == 93 {
        let d = if method == 8 {
            deflate_decoded(data)
        } else {
            zstd_decoded(data)
        };
        match d {
            Ok(bytes) => r matches Ok(v) && v@ == bytes,
            Err(msg) => r matches Err(ResourceError::Decompression(m)) && m@ == msg,
        }
    } else {
        r matches Err(ResourceError::BadArchive(m)) && m@ == unsupported_method_message(method)
    }
}

/// Decodes the data of an archive entry stored with `method`.
pub fn decompress(method: u16, data: Vec<u8>, uncompressed_size: usize) -> (r: Result<
    Vec<u8>,
    ResourceError,
>)
    ensures
        decompress_outcome(method, data@, r),
{
    if method == 0 {
        Ok(data)
    } else if method == 8 {
        match inflate_raw(data.as_slice(), uncompressed_size) {
            Ok(v) => Ok(v),
            Err(m) => Err(ResourceError::Decompression(m)),
        }
    } else if method == 93 {
        match zstd_decode_all(data.as_slice()) {
            Ok(v) => Ok(v),
            Err(m) => Err(ResourceError::Decompression(m)),
        }
    } else {
        let mut m = String::from_str("Unsupported compression method: ");
        append_decimal(&mut m, method as u64);
        Err(ResourceError::BadArchive(m))
    }
}

} // verus!
