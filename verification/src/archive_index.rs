use vstd::prelude::*;
use vstd::string::StringSliceAdditionalSpecFns;

verus! {

/// The MD5 digest of the bytes, as the `md5` crate computes it.
pub uninterp spec fn md5_digest(data: Seq<u8>) -> Seq<u8>;

/// Calls `md5::compute`; claims that the digest is `md5_digest` of the
/// input bytes.
#[verifier::external_body]
fn md5_compute(data: &[u8]) -> (r: [u8; 16])
    ensures
        r@ == md5_digest(data@),
{
    md5::compute(data).0
}

/// Value of 8 bytes read as a little-endian unsigned integer.
pub open spec fn le_u64_value(b: Seq<u8>, at: int) -> int {
    b[at] + 0x100 * b[at + 1] + 0x1_0000 * b[at + 2] + 0x100_0000 * b[at + 3] + 0x1_0000_0000 * b[at
        + 4] + 0x100_0000_0000 * b[at + 5] + 0x1_0000_0000_0000 * b[at + 6] + 0x100_0000_0000_0000
        * b[at + 7]
}

/// Reads 8 bytes at `at` as a little-endian `u64`.
pub fn read_le_u64(b: &[u8], at: usize) -> (r: u64)
    requires
        at + 8 <= b@.len(),
    ensures
        r == le_u64_value(b@, at as int),
{
    (b[at] as u64) + 0x100 * (b[at + 1] as u64) + 0x1_0000 * (b[at + 2] as u64) + 0x100_0000 * (b[at
        + 3] as u64) + 0x1_0000_0000 * (b[at + 4] as u64) + 0x100_0000_0000 * (b[at + 5] as u64)
        + 0x1_0000_0000_0000 * (b[at + 6] as u64) + 0x100_0000_0000_0000 * (b[at + 7] as u64)
}

/// Sort key of an MD5 digest in an archive index: its first and its second
/// 8 bytes, each read as a little-endian integer, compared in that order.
pub open spec fn spec_md5_key(h: Seq<u8>) -> (u64, u64) {
    (le_u64_value(h, 0) as u64, le_u64_value(h, 8) as u64)
}

/// Sort key of an MD5 digest in an archive index.
pub fn md5_key(h: &[u8; 16]) -> (r: (u64, u64))
    ensures
        r == spec_md5_key(h@),
{
    let s: &[u8] = h.as_slice();
    (read_le_u64(s, 0), read_le_u64(s, 8))
}

/// Key order of archive index entries: lexicographic on the two halves.
pub open spec fn key_le(a: (u64, u64), b: (u64, u64)) -> bool {
    a.0 < b.0 || (a.0 == b.0 && a.1 <= b.1)
}

/// The MD5 digest of a path's UTF-8 bytes, which an archive index is keyed by.
pub fn hash_path(path: &str) -> (r: [u8; 16])
    ensures
        r@ == md5_digest(path.spec_bytes()),
{
    md5_compute(path.as_bytes())
}

/// One entry of an archive index: the sort key of the MD5 digest of an
/// entry's path, and the offset of the entry's local file header.
#[derive(Clone, Copy, Debug)]
pub struct IndexEntry {
    pub path_md5: (u64, u64),
    pub offset: u64,
}

/// The index of a 3tz archive: entries sorted by the key of their path digest.
pub struct ArchiveIndex {
    pub entries: Vec<IndexEntry>,
}

/// Size in bytes of one record of a 3tz index.
pub const INDEX_RECORD_SIZE: usize = 24;

/// The entries that a 3tz index file holds: one per 24-byte record, the
/// 16-byte digest followed by the little-endian 8-byte offset.
pub open spec fn spec_index_entries(b: Seq<u8>) -> Seq<IndexEntry> {
    Seq::new(
        (b.len() / 24) as nat,
        |i: int|
            IndexEntry {
                path_md5: (le_u64_value(b, 24 * i) as u64, le_u64_value(b, 24 * i + 8) as u64),
                offset: le_u64_value(b, 24 * i + 16) as u64,
            },
    )
}

/// All entries are in key order.
pub open spec fn entries_sorted(e: Seq<IndexEntry>) -> bool {
    forall|i: int, j: int| 0 <= i <= j < e.len() ==> key_le(#[trigger] e[i].path_md5, #[trigger] e[j].path_md5)
}

impl ArchiveIndex {
    /// Reads the records of a 3tz index file; fails when its length is not a
    /// whole number of records.
    pub fn from_index_bytes(b: &[u8]) -> (r: Option<ArchiveIndex>)
        ensures
            r is Some <==> b@.len() % 24 == 0,
            r matches Some(ix) ==> ix.entries@ == spec_index_entries(b@),
    {
        if b.len() % INDEX_RECORD_SIZE != 0 {
            return None;
        }
        let blen = b.len();
        let n = blen / INDEX_RECORD_SIZE;
        let mut entries: Vec<IndexEntry> = Vec::new();
        let mut i: usize = 0;
        while i < n
            invariant
                blen == b@.len(),
                n == b@.len() / 24,
                b@.len() % 24 == 0,
                0 <= i <= n,
                entries@ == spec_index_entries(b@).take(i as int),
            decreases n - i,
        {
            assert(i * 24 + 24 <= b@.len()) by (nonlinear_arith)
                requires
                    i < n,
                    n == b@.len() / 24,
                    b@.len() % 24 == 0,
            ;
            let at: usize = i * 24;
            let e = IndexEntry {
                path_md5: (read_le_u64(b, at), read_le_u64(b, at + 8)),
                offset: read_le_u64(b, at + 16),
            };
            entries.push(e);
            i = i + 1;
            assert(entries@ =~= spec_index_entries(b@).take(i as int));
        }
        assert(spec_index_entries(b@).take(n as int) =~= spec_index_entries(b@));
        Some(ArchiveIndex { entries })
    }
}

fn key_less(a: (u64, u64), b: (u64, u64)) -> (r: bool)
    ensures
        r == (key_le(a, b) && a != b),
{
    a.0 < b.0 || (a.0 == b.0 && a.1 < b.1)
}

/// The run of entries with key `key` around one found by binary search:
/// `Some((first, last))` where all entries in `first..=last` hold `key` and
/// their neighbours do not. In a sorted index the run is exactly the entries
/// holding `key`, and `None` means that no entry holds it.
pub fn find_key_range(entries: &Vec<IndexEntry>, key: (u64, u64)) -> (r: Option<(usize, usize)>)
    ensures
        match r {
            Some((s, e)) => {
                &&& s <= e < entries@.len()
                &&& forall|i: int| s <= i <= e ==> (#[trigger] entries@[i]).path_md5 == key
                &&& s == 0 || entries@[s - 1].path_md5 != key
                &&& e + 1 == entries@.len() || entries@[e + 1].path_md5 != key
            },
            None => entries_sorted(entries@) ==> forall|i: int|
                0 <= i < entries@.len() ==> (#[trigger] entries@[i]).path_md5 != key,
        },
{
    // Binary search for some entry holding `key`.
    let mut lo: usize = 0;
    let mut hi: usize = entries.len();
    let mut found: Option<usize> = None;
    while lo < hi
        invariant_except_break
            0 <= lo <= hi <= entries@.len(),
            found is None,
            entries_sorted(entries@) ==> forall|i: int|
                0 <= i < entries@.len() && (i < lo || i >= hi) ==> (#[trigger] entries@[i]).path_md5
                    != key,
        ensures
            match found {
                Some(m) => m < entries@.len() && entries@[m as int].path_md5 == key,
                None => entries_sorted(entries@) ==> forall|i: int|
                    0 <= i < entries@.len() ==> (#[trigger] entries@[i]).path_md5 != key,
            },
        decreases hi - lo,
    {
        let mid = lo + (hi - lo) / 2;
        let k = entries[mid].path_md5;
        if k.0 == key.0 && k.1 == key.1 {
            found = Some(mid);
            break;
        } else if key_less(k, key) {
            proof {
                if entries_sorted(entries@) {
                    assert forall|i: int| 0 <= i <= mid implies (#[trigger] entries@[i]).path_md5 != key by {
                        assert(key_le(entries@[i].path_md5, entries@[mid as int].path_md5));
                    }
                }
            }
            lo = mid + 1;
        } else {
            proof {
                if entries_sorted(entries@) {
                    assert forall|i: int| mid <= i < entries@.len() implies (#[trigger] entries@[i]).path_md5 != key by {
                        assert(key_le(entries@[mid as int].path_md5, entries@[i].path_md5));
                    }
                }
            }
            hi = mid;
        }
    }
    match found {
        None => None,
        Some(m) => {
            let mut s = m;
            while s > 0 && entries[s - 1].path_md5.0 == key.0 && entries[s - 1].path_md5.1 == key.1
                invariant
                    s <= m < entries@.len(),
                    forall|i: int| s <= i <= m ==> (#[trigger] entries@[i]).path_md5 == key,
                decreases s,
            {
                s = s - 1;
            }
            let mut e = m;
            while e < entries.len() - 1 && entries[e + 1].path_md5.0 == key.0 && entries[e + 1].path_md5.1 == key.1
                invariant
                    m <= e < entries@.len(),
                    forall|i: int| m <= i <= e ==> (#[trigger] entries@[i]).path_md5 == key,
                decreases entries@.len() - e,
            {
                e = e + 1;
            }
            Some((s, e))
        },
    }
}

} // verus!

verus! {

/// The key of a digest is its first 8 bytes and its last 8 bytes, each read
/// little-endian: the byte at place `j` of a half weighs `256^j`.
pub proof fn lemma_md5_key_little_endian(h: Seq<u8>)
    requires
        h.len() == 16,
    ensures
        spec_md5_key(h).0 == h[0] + 0x100 * h[1] + 0x1_0000 * h[2] + 0x100_0000 * h[3] + 0x1_0000_0000 * h[4]
            + 0x100_0000_0000 * h[5] + 0x1_0000_0000_0000 * h[6] + 0x100_0000_0000_0000 * h[7],
        spec_md5_key(h).1 == h[8] + 0x100 * h[9] + 0x1_0000 * h[10] + 0x100_0000 * h[11] + 0x1_0000_0000 * h[12]
            + 0x100_0000_0000 * h[13] + 0x1_0000_0000_0000 * h[14] + 0x100_0000_0000_0000 * h[15],
{
}

/// Record `i` of an index file holds the digest in its bytes `24i..24i+16`
/// and the offset in the little-endian bytes `24i+16..24i+24`: the parsed
/// entry's key is the key of that digest, so the entry of a path is the one
/// whose record holds the path's digest, and its halves are the digest's
/// halves read little-endian.
pub proof fn lemma_index_record(b: Seq<u8>, i: int)
    requires
        0 <= i < b.len() / 24,
    ensures
        spec_index_entries(b).len() == b.len() / 24,
        spec_index_entries(b)[i].path_md5 == spec_md5_key(b.subrange(24 * i, 24 * i + 16)),
        spec_index_entries(b)[i].path_md5.0 == b[24 * i] + 0x100 * b[24 * i + 1] + 0x1_0000 * b[24 * i + 2]
            + 0x100_0000 * b[24 * i + 3] + 0x1_0000_0000 * b[24 * i + 4] + 0x100_0000_0000 * b[24 * i + 5]
            + 0x1_0000_0000_0000 * b[24 * i + 6] + 0x100_0000_0000_0000 * b[24 * i + 7],
        spec_index_entries(b)[i].path_md5.1 == b[24 * i + 8] + 0x100 * b[24 * i + 9] + 0x1_0000 * b[24 * i + 10]
            + 0x100_0000 * b[24 * i + 11] + 0x1_0000_0000 * b[24 * i + 12] + 0x100_0000_0000 * b[24 * i + 13]
            + 0x1_0000_0000_0000 * b[24 * i + 14] + 0x100_0000_0000_0000 * b[24 * i + 15],
        spec_index_entries(b)[i].offset == b[24 * i + 16] + 0x100 * b[24 * i + 17] + 0x1_0000 * b[24 * i + 18]
            + 0x100_0000 * b[24 * i + 19] + 0x1_0000_0000 * b[24 * i + 20] + 0x100_0000_0000 * b[24 * i + 21]
            + 0x1_0000_0000_0000 * b[24 * i + 22] + 0x100_0000_0000_0000 * b[24 * i + 23],
{
    assert(24 * i + 24 <= b.len()) by (nonlinear_arith)
        requires
            0 <= i < b.len() / 24,
    ;
    let h = b.subrange(24 * i, 24 * i + 16);
    assert forall|j: int| 0 <= j < 16 implies h[j] == b[24 * i + j] by {}
    lemma_md5_key_little_endian(h);
}

} // verus!
