use comingle::archive_index::{find_key_range, hash_path, md5_key, read_le_u64, ArchiveIndex, IndexEntry};
use comingle::archive_lookup::{bytes_equal, ArchiveLookup, LookupPhase, LookupProgress};
use comingle::decompress::decompress;
use comingle::error::ResourceError;
use comingle::local_header::parse_local_header;
use comingle::weights::{ArchiveIndexWeighter, BytesWeighter};
use std::io::Write;

fn local_entry(name: &str, method: u16, data: &[u8], uncompressed: u32, extra: &[u8]) -> Vec<u8> {
    let mut v = vec![0x50, 0x4b, 0x03, 0x04, 20, 0, 0, 0];
    v.extend_from_slice(&method.to_le_bytes());
    v.extend_from_slice(&[0, 0, 0, 0, 0, 0, 0, 0]);
    v.extend_from_slice(&(data.len() as u32).to_le_bytes());
    v.extend_from_slice(&uncompressed.to_le_bytes());
    v.extend_from_slice(&(name.len() as u16).to_le_bytes());
    v.extend_from_slice(&(extra.len() as u16).to_le_bytes());
    v.extend_from_slice(name.as_bytes());
    v.extend_from_slice(extra);
    v.extend_from_slice(data);
    v
}

fn key_of(path: &str) -> (u64, u64) {
    md5_key(&hash_path(path))
}

fn range(f: &[u8], off: u64, len: u64) -> Vec<u8> {
    let off = off as usize;
    if off >= f.len() {
        return Vec::new();
    }
    let end = std::cmp::min(f.len(), off + len as usize);
    f[off..end].to_vec()
}

fn run(index: &ArchiveIndex, path: &str, f: &[u8]) -> Result<Vec<u8>, ResourceError> {
    let mut lookup = ArchiveLookup::start(index, path)?;
    let mut reads = 0;
    loop {
        let (off, len) = lookup.next_read().expect("read offset fits in u64");
        reads += 1;
        assert!(reads < 100);
        match lookup.step(range(f, off, len)) {
            LookupProgress::Pending(l) => lookup = l,
            LookupProgress::Done(r) => return r,
        }
    }
}

fn deflate(data: &[u8]) -> Vec<u8> {
    let mut e = flate2::write::DeflateEncoder::new(Vec::new(), flate2::Compression::default());
    e.write_all(data).unwrap();
    e.finish().unwrap()
}

fn sorted_index(mut entries: Vec<IndexEntry>) -> ArchiveIndex {
    entries.sort_by_key(|e| e.path_md5);
    ArchiveIndex { entries }
}

#[test]
fn md5_of_path() {
    assert_eq!(hash_path("abc"), md5::compute(b"abc").0);
    let d = hash_path("abc");
    assert_eq!(md5_key(&d), (u64::from_le_bytes(d[0..8].try_into().unwrap()), u64::from_le_bytes(d[8..16].try_into().unwrap())));
}

#[test]
fn little_endian_read() {
    let b = [1u8, 2, 3, 4, 5, 6, 7, 8, 9];
    assert_eq!(read_le_u64(&b, 1), 0x0908070605040302);
}

#[test]
fn index_records_are_parsed() {
    let mut b = Vec::new();
    b.extend_from_slice(&[1u8; 16]);
    b.extend_from_slice(&7u64.to_le_bytes());
    b.extend_from_slice(&[2u8; 8]);
    b.extend_from_slice(&[3u8; 8]);
    b.extend_from_slice(&300u64.to_le_bytes());
    let ix = ArchiveIndex::from_index_bytes(&b).unwrap();
    assert_eq!(ix.entries.len(), 2);
    assert_eq!(ix.entries[0].path_md5, (0x0101010101010101, 0x0101010101010101));
    assert_eq!(ix.entries[0].offset, 7);
    assert_eq!(ix.entries[1].path_md5, (0x0202020202020202, 0x0303030303030303));
    assert_eq!(ix.entries[1].offset, 300);
    assert!(ArchiveIndex::from_index_bytes(&b[..25]).is_none());
    assert_eq!(ArchiveIndex::from_index_bytes(&[]).unwrap().entries.len(), 0);
}

#[test]
fn key_range_covers_all_equal_keys() {
    let e = |k: (u64, u64), o: u64| IndexEntry { path_md5: k, offset: o };
    let v = vec![e((1, 0), 0), e((2, 5), 1), e((2, 5), 2), e((2, 5), 3), e((3, 0), 4)];
    assert_eq!(find_key_range(&v, (2, 5)), Some((1, 3)));
    assert_eq!(find_key_range(&v, (1, 0)), Some((0, 0)));
    assert_eq!(find_key_range(&v, (3, 0)), Some((4, 4)));
    assert_eq!(find_key_range(&v, (2, 4)), None);
    assert_eq!(find_key_range(&Vec::new(), (2, 4)), None);
}

#[test]
fn local_header_fields() {
    let v = local_entry("a.json", 8, &[1, 2, 3], 10, &[9, 9]);
    let h = parse_local_header(&v[..30]).ok().unwrap();
    assert_eq!(h.compression_method, 8);
    assert_eq!(h.compressed_size, 3);
    assert_eq!(h.uncompressed_size, 10);
    assert_eq!(h.filename_len, 6);
    assert_eq!(h.extra_field_len, 2);
}

#[test]
fn local_header_errors() {
    let v = local_entry("a.json", 0, &[], 0, &[]);
    match parse_local_header(&v[..29]) {
        Err(ResourceError::BadArchive(m)) => assert_eq!(m, "Invalid Local File Header signature"),
        _ => panic!("expected BadArchive"),
    }
    let mut w = v.clone();
    w[3] = 5;
    assert!(matches!(parse_local_header(&w), Err(ResourceError::BadArchive(_))));
}

#[test]
fn decompress_methods() {
    let data = b"hello hello hello hello".to_vec();
    assert_eq!(decompress(0, data.clone(), 0).ok(), Some(data.clone()));
    assert_eq!(decompress(8, deflate(&data), data.len()).ok(), Some(data.clone()));
    assert_eq!(decompress(93, zstd::encode_all(&data[..], 3).unwrap(), 0).ok(), Some(data.clone()));
}

#[test]
fn decompress_errors() {
    match decompress(99, vec![1, 2], 0) {
        Err(ResourceError::BadArchive(m)) => assert_eq!(m, "Unsupported compression method: 99"),
        _ => panic!("expected BadArchive"),
    }
    match decompress(12, vec![], 0) {
        Err(ResourceError::BadArchive(m)) => assert_eq!(m, "Unsupported compression method: 12"),
        _ => panic!("expected BadArchive"),
    }
    assert!(matches!(decompress(93, vec![1, 2, 3, 4, 5], 0), Err(ResourceError::Decompression(_))));
    assert!(matches!(decompress(8, vec![0xff, 0xff, 0xff], 0), Err(ResourceError::Decompression(_))));
}

#[test]
fn lookup_reads_stored_and_deflated_entries() {
    let tileset = b"{\"root\":{}}".to_vec();
    let payload = b"payload payload payload".to_vec();
    let mut f = local_entry("tileset.json", 0, &tileset, tileset.len() as u32, &[]);
    let second = f.len() as u64;
    f.extend(local_entry("4/1.glb", 8, &deflate(&payload), payload.len() as u32, &[1, 2, 3]));
    let index = sorted_index(vec![
        IndexEntry { path_md5: key_of("tileset.json"), offset: 0 },
        IndexEntry { path_md5: key_of("4/1.glb"), offset: second },
    ]);
    assert_eq!(run(&index, "tileset.json", &f).ok(), Some(tileset));
    assert_eq!(run(&index, "4/1.glb", &f).ok(), Some(payload));
}

#[test]
fn lookup_resolves_digest_collision_by_name() {
    let a = b"first".to_vec();
    let b = b"second".to_vec();
    let mut f = local_entry("other.json", 0, &a, 5, &[]);
    let second = f.len() as u64;
    f.extend(local_entry("wanted.json", 0, &b, 6, &[]));
    // Both entries are filed under the digest of the wanted path.
    let k = key_of("wanted.json");
    let index = ArchiveIndex { entries: vec![IndexEntry { path_md5: k, offset: 0 }, IndexEntry { path_md5: k, offset: second }] };
    assert_eq!(run(&index, "wanted.json", &f).ok(), Some(b));
}

#[test]
fn lookup_errors() {
    let f = local_entry("x.json", 0, b"x", 1, &[]);
    let index = ArchiveIndex { entries: vec![IndexEntry { path_md5: key_of("y.json"), offset: 0 }] };
    match run(&index, "y.json", &f) {
        Err(ResourceError::NotFound(m)) => assert_eq!(m, "Filename mismatch (hash collision resolved to no valid file)"),
        _ => panic!("expected NotFound"),
    }
    match run(&index, "z.json", &f) {
        Err(ResourceError::NotFound(m)) => assert_eq!(m, "File not found in archive index"),
        _ => panic!("expected NotFound"),
    }
    let bad = ArchiveIndex { entries: vec![IndexEntry { path_md5: key_of("x.json"), offset: 3 }] };
    match run(&bad, "x.json", &f) {
        Err(ResourceError::BadArchive(m)) => assert_eq!(m, "Invalid Local File Header signature"),
        _ => panic!("expected BadArchive"),
    }
}

#[test]
fn lookup_asks_for_the_expected_ranges() {
    let f = local_entry("ab", 0, b"xyz", 3, &[7]);
    let index = ArchiveIndex { entries: vec![IndexEntry { path_md5: key_of("ab"), offset: 0 }] };
    let l = ArchiveLookup::start(&index, "ab").ok().unwrap();
    assert_eq!(l.next_read(), Some((0, 30)));
    let l = match l.step(range(&f, 0, 30)) {
        LookupProgress::Pending(l) => l,
        _ => panic!(),
    };
    assert!(matches!(l.phase, LookupPhase::Name { .. }));
    assert_eq!(l.next_read(), Some((30, 2)));
    let l = match l.step(b"ab".to_vec()) {
        LookupProgress::Pending(l) => l,
        _ => panic!(),
    };
    assert_eq!(l.next_read(), Some((33, 3)));
}

#[test]
fn byte_comparison() {
    assert!(bytes_equal(b"abc", b"abc"));
    assert!(!bytes_equal(b"abc", b"abd"));
    assert!(!bytes_equal(b"abc", b"ab"));
}

#[test]
fn weights() {
    assert_eq!(BytesWeighter.weight(&([0u8; 16], 0), &[1, 2, 3]), 3);
    let ix = ArchiveIndex { entries: vec![IndexEntry { path_md5: (0, 0), offset: 0 }; 3] };
    assert_eq!(ArchiveIndexWeighter.weight("k", &ix), 72);
}

#[test]
fn lookup_reports_a_read_offset_beyond_u64() {
    let f = local_entry("ab", 0, b"xyz", 3, &[7]);
    let far = u64::MAX - 10;
    let index = ArchiveIndex { entries: vec![IndexEntry { path_md5: key_of("ab"), offset: far }] };
    let l = ArchiveLookup::start(&index, "ab").ok().unwrap();
    assert_eq!(l.next_read(), Some((far, 30)));
    let l = match l.step(range(&f, 0, 30)) {
        LookupProgress::Pending(l) => l,
        _ => panic!("expected a further read"),
    };
    assert!(matches!(l.phase, LookupPhase::Name { .. }));
    assert_eq!(l.next_read(), None);
}
