use vstd::prelude::*;
use crate::error::ResourceError;

verus! {

/// Value of 2 bytes read as a little-endian unsigned integer.
pub open spec fn le_u16_value(b: Seq<u8>, at: int) -> int {
    b[at] + 0x100 * b[at + 1]
}

/// Value of 4 bytes read as a little-endian unsigned integer.
pub open spec fn le_u32_value(b: Seq<u8>, at: int) -> int {
    b[at] + 0x100 * b[at + 1] + 0x1_0000 * b[at + 2] + 0x100_0000 * b[at + 3]
}

fn read_le_u16(b: &[u8], at: usize) -> (r: u16)
    requires
        at + 2 <= b@.len(),
    ensures
        r == le_u16_value(b@, at as int),
{
    (b[at] as u16) + 0x100 * (b[at + 1] as u16)
}

fn read_le_u32(b: &[u8], at: usize) -> (r: u32)
    requires
        at + 4 <= b@.len(),
    ensures
        r == le_u32_value(b@, at as int),
{
    (b[at] as u32) + 0x100 * (b[at + 1] as u32) + 0x1_0000 * (b[at + 2] as u32) + 0x100_0000 * (
    b[at + 3] as u32)
}

/// The fields of a zip local file header that locating and decoding an
/// entry needs.
#[derive(Clone, Copy, Debug)]
pub struct LocalFileHeader {
    pub compression_method: u16,
    pub compressed_size: u32,
    pub uncompressed_size: u32,
    pub filename_len: u16,
    pub extra_field_len: u16,
}

/// The header bytes are at least 30 long and start with the local file
/// header signature `PK\x03\x04`.
pub open spec fn is_local_header(b: Seq<u8>) -> bool {
    b.len() >= 30 && b[0] == 0x50 && b[1] == 0x4b && b[2] == 0x03 && b[3] == 0x04
}

/// The fields of the local file header that the bytes hold.
pub open spec fn spec_local_header(b: Seq<u8>) -> LocalFileHeader {
    LocalFileHeader {
        compression_method: le_u16_value(b, 8) as u16,
        compressed_size: le_u32_value(b, 18) as u32,
        uncompressed_size: le_u32_value(b, 22) as u32,
        filename_len: le_u16_value(b, 26) as u16,
        extra_field_len: le_u16_value(b, 28) as u16,
    }
}

/// Message of the error for bytes that are no local file header.
pub open spec fn bad_header_message() -> Seq<char> {
    "Invalid Local File Header signature"@
}

/// Reads the fixed part of a zip local file header.
pub fn parse_local_header(b: &[u8]) -> (r: Result<LocalFileHeader, ResourceError>)
    ensures
        r is Ok <==> is_local_header(b@),
        r matches Ok(h) ==> h == spec_local_header(b@),
        r matches Err(e) ==> e matches ResourceError::BadArchive(m) && m@ == bad_header_message(),
{
    if b.len() < 30 || !(b[0] == 0x50 && b[1] == 0x4b && b[2] == 0x03 && b[3] == 0x04) {
        let m = String::from_str("Invalid Local File Header signature");
        return Err(ResourceError::BadArchive(m));
    }
    Ok(
        LocalFileHeader {
            compression_method: read_le_u16(b, 8),
            compressed_size: read_le_u32(b, 18),
            uncompressed_size: read_le_u32(b, 22),
            filename_len: read_le_u16(b, 26),
            extra_field_len: read_le_u16(b, 28),
        },
    )
}

} // verus!

verus! {

/// The fields of a local file header are its little-endian fields at their
/// fixed places: method at bytes 8..10, compressed size at 18..22,
/// uncompressed size at 22..26, name length at 26..28 and extra-field length
/// at 28..30, each byte weighted by its place.
pub proof fn lemma_local_header_fields(b: Seq<u8>)
    requires
        is_local_header(b),
    ensures
        spec_local_header(b).compression_method == b[8] + 256 * b[9],
        spec_local_header(b).compressed_size == b[18] + 0x100 * b[19] + 0x1_0000 * b[20] + 0x100_0000 * b[21],
        spec_local_header(b).uncompressed_size == b[22] + 0x100 * b[23] + 0x1_0000 * b[24] + 0x100_0000 * b[25],
        spec_local_header(b).filename_len == b[26] + 256 * b[27],
        spec_local_header(b).extra_field_len == b[28] + 256 * b[29],
{
}

/// Bytes are a local file header exactly when there are at least 30 of them
/// and the first four are `P`, `K`, 3, 4.
pub proof fn lemma_local_header_signature(b: Seq<u8>)
    ensures
        is_local_header(b) <==> (b.len() >= 30 && b[0] == 80 && b[1] == 75 && b[2] == 3 && b[3] == 4),
{
}

} // verus!
