use vstd::prelude::*;
use vstd::string::StringSliceAdditionalSpecFns;
use crate::error::ResourceError;
use crate::archive_index::{
    ArchiveIndex, IndexEntry, entries_sorted, find_key_range, hash_path, md5_digest, md5_key,
    spec_md5_key,
};
use crate::local_header::{
    LocalFileHeader, bad_header_message, is_local_header, parse_local_header, spec_local_header,
};
use crate::decompress::{decompress, decompress_outcome};

verus! {

/// Where a lookup stands within the current candidate entry.
#[derive(Clone, Copy, Debug)]
pub enum LookupPhase {
    /// The entry's local file header is to be read.
    Header,
    /// The entry's name is to be read and compared.
    Name { header: LocalFileHeader },
    /// The entry's data is to be read and decoded.
    Data { header: LocalFileHeader },
}

/// A lookup of one path in a 3tz archive. The candidates are the header
/// offsets of the index entries whose digest key is the path's; they are
/// tried in index order until one whose stored name is the path.
pub struct ArchiveLookup {
    pub candidates: Vec<u64>,
    pub current: usize,
    pub content_path: Vec<u8>,
    pub phase: LookupPhase,
}

/// What a lookup step leads to: another read, or the lookup's result.
pub enum LookupProgress {
    Pending(ArchiveLookup),
    Done(Result<Vec<u8>, ResourceError>),
}

/// Message of the error for a path whose digest no index entry holds.
pub open spec fn not_in_index_message() -> Seq<char> {
    "File not found in archive index"@
}

/// Message of the error for a path that no candidate entry is named by.
pub open spec fn name_mismatch_message() -> Seq<char> {
    "Filename mismatch (hash collision resolved to no valid file)"@
}

/// Offset of an entry's data: after the 30-byte header, the name and the
/// extra field.
pub open spec fn data_offset(offset: u64, h: LocalFileHeader) -> int {
    offset + 30 + h.filename_len + h.extra_field_len
}

/// The header offsets of entries `s..=e`.
pub open spec fn run_offsets(entries: Seq<IndexEntry>, s: int, e: int) -> Seq<u64> {
    entries.subrange(s, e + 1).map_values(|x: IndexEntry| x.offset)
}

/// What a step of lookup `l` on the read bytes `bytes` leads to.
pub open spec fn step_outcome(l: ArchiveLookup, bytes: Seq<u8>, r: LookupProgress) -> bool {
    match l.phase {
        LookupPhase::Header => if is_local_header(bytes) {
            r matches LookupProgress::Pending(n) && n.phase == (LookupPhase::Name { header: spec_local_header(bytes) })
                && n.current == l.current && n.candidates@ == l.candidates@ && n.content_path@ == l.content_path@
        } else {
            r matches LookupProgress::Done(Err(ResourceError::BadArchive(m))) && m@ == bad_header_message()
        },
        LookupPhase::Name { header } => if bytes == l.content_path@ {
            r matches LookupProgress::Pending(n) && n.phase == (LookupPhase::Data { header })
                && n.current == l.current && n.candidates@ == l.candidates@ && n.content_path@ == l.content_path@
        } else if l.current + 1 < l.candidates@.len() {
            r matches LookupProgress::Pending(n) && n.phase is Header
                && n.current == l.current + 1 && n.candidates@ == l.candidates@ && n.content_path@ == l.content_path@
        } else {
            r matches LookupProgress::Done(Err(ResourceError::NotFound(m))) && m@ == name_mismatch_message()
        },
        LookupPhase::Data { header } => r matches LookupProgress::Done(d) && decompress_outcome(header.compression_method, bytes, d),
    }
}

impl ArchiveLookup {
    /// The state is consistent: a candidate is current.
    pub open spec fn wf(&self) -> bool {
        self.current < self.candidates@.len()
    }

    /// Header offset of the current candidate.
    pub open spec fn current_offset(&self) -> u64 {
        self.candidates@[self.current as int]
    }

    /// The byte range `(offset, length)` that the next step needs.
    pub open spec fn read_request(&self) -> (int, int) {
        match self.phase {
            LookupPhase::Header => (self.current_offset() as int, 30),
            LookupPhase::Name { header } => (self.current_offset() + 30, header.filename_len as int),
            LookupPhase::Data { header } => (data_offset(self.current_offset(), header), header.compressed_size as int),
        }
    }

    /// Reads still possible before the lookup must finish: three per
    /// remaining candidate, less those already made for the current one.
    pub open spec fn remaining_reads(&self) -> int {
        let done = match self.phase {
            LookupPhase::Header => 0int,
            LookupPhase::Name { .. } => 1int,
            LookupPhase::Data { .. } => 2int,
        };
        3 * (self.candidates@.len() - self.current) - done
    }

    /// Starts the lookup of `content_path` in an archive with the given
    /// index: finds the run of entries whose digest key is the path's.
    pub fn start(index: &ArchiveIndex, content_path: &str) -> (r: Result<ArchiveLookup, ResourceError>)
        ensures
            ({
                let key = spec_md5_key(md5_digest(content_path.spec_bytes()));
                &&& entries_sorted(index.entries@) ==> (r is Ok <==> exists|i: int| 0 <= i < index.entries@.len() && #[trigger] index.entries@[i].path_md5 == key)
                &&& r matches Ok(l) ==> {
                    &&& l.wf()
                    &&& l.current == 0
                    &&& l.phase is Header
                    &&& l.content_path@ == content_path.spec_bytes()
                    &&& exists|s: int, e: int| {
                        &&& 0 <= s <= e < index.entries@.len()
                        &&& forall|i: int| s <= i <= e ==> (#[trigger] index.entries@[i]).path_md5 == key
                        &&& (s == 0 || index.entries@[s - 1].path_md5 != key)
                        &&& (e + 1 == index.entries@.len() || index.entries@[e + 1].path_md5 != key)
                        &&& l.candidates@ == run_offsets(index.entries@, s, e)
                    }
                }
                &&& r matches Err(err) ==> err matches ResourceError::NotFound(m) && m@ == not_in_index_message()
            }),
    {
        let digest = hash_path(content_path);
        let key = md5_key(&digest);
        match find_key_range(&index.entries, key) {
            None => {
                let m = String::from_str("File not found in archive index");
                Err(ResourceError::NotFound(m))
            },
            Some((s, e)) => {
                let n = index.entries.len();
                let mut candidates: Vec<u64> = Vec::new();
                let mut i = s;
                while i <= e
                    invariant
                        s <= i <= e + 1,
                        e < index.entries@.len(),
                        n == index.entries@.len(),
                        candidates@ == run_offsets(index.entries@, s as int, i - 1),
                    decreases e + 1 - i,
                {
                    candidates.push(index.entries[i].offset);
                    i = i + 1;
                    assert(candidates@ =~= run_offsets(index.entries@, s as int, i - 1));
                }
                let bytes = content_path.as_bytes();
                let mut path_bytes: Vec<u8> = Vec::new();
                let mut k: usize = 0;
                while k < bytes.len()
                    invariant
                        0 <= k <= bytes@.len(),
                        path_bytes@ == bytes@.take(k as int),
                    decreases bytes@.len() - k,
                {
                    path_bytes.push(bytes[k]);
                    k = k + 1;
                    assert(path_bytes@ =~= bytes@.take(k as int));
                }
                assert(bytes@.take(bytes@.len() as int) =~= bytes@);
                let l = ArchiveLookup { candidates, current: 0, content_path: path_bytes, phase: LookupPhase::Header };
                assert(index.entries@[s as int].path_md5 == key);
                assert(l.candidates@ == run_offsets(index.entries@, s as int, e as int));
                Ok(l)
            },
        }
    }

    /// The byte range `(offset, length)` that the next step needs, or `None`
    /// when its offset does not fit in a `u64`.
    pub fn next_read(&self) -> (r: Option<(u64, u64)>)
        requires
            self.wf(),
        ensures
            r is None <==> self.read_request().0 > u64::MAX,
            r matches Some((o, l)) ==> o == self.read_request().0 && l == self.read_request().1,
    {
        let off = self.candidates[self.current];
        match self.phase {
            LookupPhase::Header => Some((off, 30)),
            LookupPhase::Name { header } => match off.checked_add(30) {
                Some(o) => Some((o, header.filename_len as u64)),
                None => None,
            },
            LookupPhase::Data { header } => {
                let skip: u64 = 30 + header.filename_len as u64 + header.extra_field_len as u64;
                match off.checked_add(skip) {
                    Some(o) => Some((o, header.compressed_size as u64)),
                    None => None,
                }
            },
        }
    }

    /// Takes the bytes of the range that `read_request` named and decides
    /// what comes next: a bad header ends the lookup with an error; a read
    /// name that is not the path moves on to the next candidate, or ends the
    /// lookup with an error after the last one; read data is decoded and
    /// ends the lookup.
    pub fn step(self, bytes: Vec<u8>) -> (r: LookupProgress)
        requires
            self.wf(),
        ensures
            step_outcome(self, bytes@, r),
            r matches LookupProgress::Pending(l) ==> l.wf() && 0 <= l.remaining_reads() < self.remaining_reads(),
    {
        let ArchiveLookup { candidates, current, content_path, phase } = self;
        match phase {
            LookupPhase::Header => {
                match parse_local_header(bytes.as_slice()) {
                    Ok(header) => LookupProgress::Pending(ArchiveLookup { candidates, current, content_path, phase: LookupPhase::Name { header } }),
                    Err(e) => LookupProgress::Done(Err(e)),
                }
            },
            LookupPhase::Name { header } => {
                if bytes_equal(bytes.as_slice(), content_path.as_slice()) {
                    LookupProgress::Pending(ArchiveLookup { candidates, current, content_path, phase: LookupPhase::Data { header } })
                } else if current < candidates.len() - 1 {
                    LookupProgress::Pending(ArchiveLookup { candidates, current: current + 1, content_path, phase: LookupPhase::Header })
                } else {
                    let m = String::from_str("Filename mismatch (hash collision resolved to no valid file)");
                    LookupProgress::Done(Err(ResourceError::NotFound(m)))
                }
            },
            LookupPhase::Data { header } => {
                LookupProgress::Done(decompress(header.compression_method, bytes, header.uncompressed_size as usize))
            },
        }
    }
}

/// Whether two byte slices hold the same bytes.
pub fn bytes_equal(a: &[u8], b: &[u8]) -> (r: bool)
    ensures
        r == (a@ == b@),
{
    if a.len() != b.len() {
        return false;
    }
    let mut i: usize = 0;
    while i < a.len()
        invariant
            a@.len() == b@.len(),
            0 <= i <= a@.len(),
            forall|j: int| 0 <= j < i ==> a@[j] == b@[j],
        decreases a@.len() - i,
    {
        if a[i] != b[i] {
            return false;
        }
        i = i + 1;
    }
    assert(a@ =~= b@);
    true
}

} // verus!

verus! {

/// The bytes that reading `len` bytes at `off` gives from an archive whose
/// content is `f`: those bytes of the range that lie within the archive.
pub open spec fn range_of(f: Seq<u8>, off: int, len: int) -> Seq<u8> {
    if off < 0 || len < 0 || off >= f.len() {
        Seq::empty()
    } else if off + len >= f.len() {
        f.subrange(off, f.len() as int)
    } else {
        f.subrange(off, off + len)
    }
}

/// How looking up an entry in an archive turns out.
pub enum LookupModel {
    /// The entry with this header, whose data starts at `data_start`.
    Found { header: LocalFileHeader, data_start: int },
    /// A candidate's bytes are no local file header.
    BadHeader,
    /// No candidate is named by the path.
    NoMatchingName,
}

/// How trying the candidates from the `i`-th on turns out in archive `f`:
/// the first whose header is valid and whose name is `path` is found; a
/// candidate with an invalid header ends the search.
pub open spec fn scan_candidates(cands: Seq<u64>, i: int, path: Seq<u8>, f: Seq<u8>) -> LookupModel
    decreases cands.len() - i,
{
    if i < 0 || i >= cands.len() {
        LookupModel::NoMatchingName
    } else {
        let hb = range_of(f, cands[i] as int, 30);
        if !is_local_header(hb) {
            LookupModel::BadHeader
        } else {
            let h = spec_local_header(hb);
            if range_of(f, cands[i] + 30, h.filename_len as int) == path {
                LookupModel::Found { header: h, data_start: data_offset(cands[i], h) }
            } else {
                scan_candidates(cands, i + 1, path, f)
            }
        }
    }
}

/// How the rest of lookup `l` turns out in archive `f`.
pub open spec fn expected_outcome(l: ArchiveLookup, f: Seq<u8>) -> LookupModel {
    let off = l.current_offset();
    match l.phase {
        LookupPhase::Header => scan_candidates(l.candidates@, l.current as int, l.content_path@, f),
        LookupPhase::Name { header } => if range_of(f, off + 30, header.filename_len as int) == l.content_path@ {
            LookupModel::Found { header, data_start: data_offset(off, header) }
        } else {
            scan_candidates(l.candidates@, l.current + 1, l.content_path@, f)
        },
        LookupPhase::Data { header } => LookupModel::Found { header, data_start: data_offset(off, header) },
    }
}

/// The lookup's result is what the outcome `m` in archive `f` calls for:
/// the decoded data of the found entry, or the error for a bad header or
/// for no matching name.
pub open spec fn result_matches(m: LookupModel, f: Seq<u8>, res: Result<Vec<u8>, ResourceError>) -> bool {
    match m {
        LookupModel::Found { header, data_start } => decompress_outcome(
            header.compression_method,
            range_of(f, data_start, header.compressed_size as int),
            res,
        ),
        LookupModel::BadHeader => res matches Err(ResourceError::BadArchive(msg)) && msg@ == bad_header_message(),
        LookupModel::NoMatchingName => res matches Err(ResourceError::NotFound(msg)) && msg@ == name_mismatch_message(),
    }
}

/// Fed the bytes that an archive with content `f` holds in the range it
/// asks for, a lookup step keeps the lookup's expected outcome, and a step
/// that finishes the lookup gives that outcome's result. Together with the
/// strictly falling `remaining_reads`, a lookup run on an archive ends with
/// the result of `scan_candidates` over its candidates.
pub proof fn lemma_step_follows_archive(l: ArchiveLookup, f: Seq<u8>, bytes: Seq<u8>, r: LookupProgress)
    requires
        l.wf(),
        bytes == range_of(f, l.read_request().0, l.read_request().1),
        step_outcome(l, bytes, r),
    ensures
        r matches LookupProgress::Pending(n) ==> expected_outcome(n, f) == expected_outcome(l, f),
        r matches LookupProgress::Done(res) ==> result_matches(expected_outcome(l, f), f, res),
{
    let off = l.current_offset();
    match l.phase {
        LookupPhase::Header => {
            assert(bytes == range_of(f, off as int, 30));
        },
        LookupPhase::Name { header } => {
            assert(bytes == range_of(f, off + 30, header.filename_len as int));
            if bytes != l.content_path@ && l.current + 1 >= l.candidates@.len() {
                assert(scan_candidates(l.candidates@, l.current + 1, l.content_path@, f) is NoMatchingName);
            }
        },
        LookupPhase::Data { .. } => {},
    }
}

} // verus!

verus! {

/// `states` is a run of a lookup on an archive with content `f`: every
/// state is consistent, and each is what the step of the one before leads
/// to when fed the archive's bytes of the range that it asks for.
pub open spec fn is_run_on(states: Seq<ArchiveLookup>, f: Seq<u8>) -> bool {
    &&& states.len() >= 1
    &&& forall|i: int| 0 <= i < states.len() ==> (#[trigger] states[i]).wf()
    &&& forall|i: int|
        0 <= i < states.len() - 1 ==> step_outcome(
            #[trigger] states[i],
            range_of(f, states[i].read_request().0, states[i].read_request().1),
            LookupProgress::Pending(states[i + 1]),
        )
}

proof fn lemma_run_keeps_outcome(states: Seq<ArchiveLookup>, f: Seq<u8>, i: int)
    requires
        is_run_on(states, f),
        0 <= i < states.len(),
    ensures
        expected_outcome(states[i], f) == expected_outcome(states[0], f),
        states[i].remaining_reads() <= states[0].remaining_reads() - i,
    decreases i,
{
    if i > 0 {
        lemma_run_keeps_outcome(states, f, i - 1);
        let l = states[i - 1];
        let bytes = range_of(f, l.read_request().0, l.read_request().1);
        lemma_step_follows_archive(l, f, bytes, LookupProgress::Pending(states[i]));
    }
}

/// A whole lookup run on an archive with content `f`, started at a
/// candidate's header, ends with the result that `scan_candidates` calls
/// for: the decoded data of the first candidate whose header is valid and
/// whose stored name is the path, or the error for a bad header or for no
/// matching name. A run takes at most `remaining_reads` of its first state
/// steps.
pub proof fn lemma_run_follows_archive(states: Seq<ArchiveLookup>, f: Seq<u8>, res: Result<Vec<u8>, ResourceError>)
    requires
        is_run_on(states, f),
        states[0].phase is Header,
        step_outcome(
            states.last(),
            range_of(f, states.last().read_request().0, states.last().read_request().1),
            LookupProgress::Done(res),
        ),
    ensures
        result_matches(
            scan_candidates(states[0].candidates@, states[0].current as int, states[0].content_path@, f),
            f,
            res,
        ),
        states.len() <= states[0].remaining_reads(),
{
    let n = states.len() as int;
    lemma_run_keeps_outcome(states, f, n - 1);
    let l = states.last();
    lemma_step_follows_archive(l, f, range_of(f, l.read_request().0, l.read_request().1), LookupProgress::Done(res));
}

/// The reads of a lookup for the current candidate, whose local file header
/// starts at offset `o`: the 30 header bytes at `o`; then the stored name,
/// right after them; then the entry's data, after the name and the extra
/// field, as many bytes as the header's compressed size.
pub proof fn lemma_read_requests(l: ArchiveLookup)
    requires
        l.wf(),
    ensures
        ({
            let o = l.candidates@[l.current as int] as int;
            match l.phase {
                LookupPhase::Header => l.read_request() == (o, 30int),
                LookupPhase::Name { header } => l.read_request() == (o + 30, header.filename_len as int),
                LookupPhase::Data { header } => l.read_request() == (
                    o + 30 + header.filename_len + header.extra_field_len,
                    header.compressed_size as int,
                ),
            }
        }),
{
}

} // verus!
