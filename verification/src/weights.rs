use vstd::prelude::*;
use crate::archive_index::ArchiveIndex;

verus! {

/// Cache weight of a cached block of bytes: its length.
#[derive(Clone, Copy, Debug)]
pub struct BytesWeighter;

impl BytesWeighter {
    /// Weight of the block `value` cached under `_key`: its length in bytes.
    pub fn weight(&self, _key: &([u8; 16], u64), value: &[u8]) -> (r: u64)
        ensures
            r == value@.len(),
    {
        value.len() as u64
    }
}

/// Cache weight of an archive index: 24 per entry, the size of an index
/// record.
#[derive(Clone, Copy, Debug)]
pub struct ArchiveIndexWeighter;

impl ArchiveIndexWeighter {
    /// Weight of the index `value` cached under `_key`: 24 per entry.
    pub fn weight(&self, _key: &str, value: &ArchiveIndex) -> (r: u64)
        requires
            value.entries@.len() * 24 <= usize::MAX,
        ensures
            r == value.entries@.len() * 24,
    {
        (value.entries.len() * 24) as u64
    }
}

} // verus!
