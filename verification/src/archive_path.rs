use vstd::prelude::*;
use crate::text::chars_of;

verus! {

/// Index just past the last line break of `p` at or before position `i`
/// (0 when there is none). Archive paths are matched on the last line only,
/// since neither part of an archive path may hold a line break.
pub open spec fn line_start_before(p: Seq<char>, i: int) -> int
    decreases i,
{
    if i <= 0 {
        0
    } else if p[i - 1] == '\n' {
        i
    } else {
        line_start_before(p, i - 1)
    }
}

/// Index just past the last line break of `p` (0 when there is none).
pub open spec fn line_start(p: Seq<char>) -> int {
    line_start_before(p, p.len() as int)
}

/// `p[e - 4..e]` is one of the archive extensions `.zip` and `.3tz`.
pub open spec fn has_archive_ext_at(p: Seq<char>, e: int) -> bool {
    &&& 4 <= e <= p.len()
    &&& p[e - 4] == '.'
    &&& (p[e - 3] == 'z' && p[e - 2] == 'i' && p[e - 1] == 'p') || (p[e - 3] == '3' && p[e - 2]
        == 't' && p[e - 1] == 'z')
}

/// The largest `e <= hi` such that `p[lo..e]` is at least one character
/// followed by an archive extension.
pub open spec fn last_archive_end(p: Seq<char>, lo: int, hi: int) -> Option<int>
    decreases hi - lo,
{
    if hi < lo + 5 {
        None
    } else if has_archive_ext_at(p, hi) {
        Some(hi)
    } else {
        last_archive_end(p, lo, hi - 1)
    }
}

/// A path separator that may follow the archive part.
pub open spec fn is_path_separator(c: char) -> bool {
    c == '/' || c == '\\'
}

/// The archive part and the raw inner part of `p`, as the pattern
/// `(.+\.(?:zip|3tz))[\\/]?(.*)$` captures them: the match lies on the last
/// line, the archive part runs to the last archive extension, one separator
/// after it is dropped, and the inner part is the rest.
pub open spec fn archive_match(p: Seq<char>) -> Option<(Seq<char>, Seq<char>)> {
    let lo = line_start(p);
    match last_archive_end(p, lo, p.len() as int) {
        None => None,
        Some(e) => {
            let r = if e < p.len() && is_path_separator(p[e]) {
                e + 1
            } else {
                e
            };
            Some((p.subrange(lo, e), p.subrange(r, p.len() as int)))
        },
    }
}

/// The inner path used when a `.3tz` archive itself is named.
pub open spec fn default_inner_path() -> Seq<char> {
    seq!['t', 'i', 'l', 'e', 's', 'e', 't', '.', 'j', 's', 'o', 'n']
}

/// `s` ends with `.3tz`.
pub open spec fn ends_with_3tz(s: Seq<char>) -> bool {
    s.len() >= 4 && s[s.len() - 4] == '.' && s[s.len() - 3] == '3' && s[s.len() - 2] == 't' && s[s.len()
        - 1] == 'z'
}

/// Splits a path into the archive it names and the path inside the archive.
/// A named `.3tz` archive with no inner path stands for its `tileset.json`;
/// a `.zip` archive with no inner path names no entry.
pub open spec fn spec_split_archive_parts(p: Seq<char>) -> Option<(Seq<char>, Seq<char>)> {
    match archive_match(p) {
        None => None,
        Some((archive, inner)) => {
            if inner.len() == 0 && !ends_with_3tz(archive) {
                None
            } else if inner.len() == 0 {
                Some((archive, default_inner_path()))
            } else {
                Some((archive, inner))
            }
        },
    }
}

proof fn lemma_line_start_bounds(p: Seq<char>, i: int)
    requires
        0 <= i <= p.len(),
    ensures
        0 <= line_start_before(p, i) <= i,
        forall|j: int| line_start_before(p, i) <= j < i ==> p[j] != '\n',
    decreases i,
{
    if i > 0 && p[i - 1] != '\n' {
        lemma_line_start_bounds(p, i - 1);
    }
}

fn is_archive_ext_at(p: &Vec<char>, e: usize) -> (r: bool)
    requires
        4 <= e <= p@.len(),
    ensures
        r == has_archive_ext_at(p@, e as int),
{
    p[e - 4] == '.' && ((p[e - 3] == 'z' && p[e - 2] == 'i' && p[e - 1] == 'p') || (p[e - 3] == '3'
        && p[e - 2] == 't' && p[e - 1] == 'z'))
}

/// Splits an archive path into the archive's path and the path of an entry
/// inside it, following the 3tz path resolver rule.
pub fn split_archive_parts(path: &str) -> (r: Option<(String, String)>)
    ensures
        match r {
            None => spec_split_archive_parts(path@) is None,
            Some((archive, inner)) => spec_split_archive_parts(path@) == Some((archive@, inner@)),
        },
{
    let p = chars_of(path);
    let n = p.len();
    // Start of the last line.
    let mut lo: usize = n;
    while lo > 0 && p[lo - 1] != '\n'
        invariant
            0 <= lo <= n,
            n == p@.len(),
            line_start_before(p@, n as int) == line_start_before(p@, lo as int),
        decreases lo,
    {
        lo = lo - 1;
    }
    proof {
        lemma_line_start_bounds(p@, n as int);
    }
    assert(lo == line_start(p@));
    // Largest end of an archive part on that line.
    if n < 5 || lo > n - 5 {
        return None;
    }
    let mut e: usize = n;
    while e >= lo + 5 && !is_archive_ext_at(&p, e)
        invariant
            lo + 5 <= n,
            lo + 4 <= e <= n,
            n == p@.len(),
            lo == line_start(p@),
            last_archive_end(p@, lo as int, n as int) == last_archive_end(p@, lo as int, e as int),
        decreases e,
    {
        e = e - 1;
    }
    if e < lo + 5 {
        return None;
    }
    let r = if e < n && (p[e] == '/' || p[e] == '\\') {
        e + 1
    } else {
        e
    };
    let archive = String::from_str(path.substring_char(lo, e));
    if r == n {
        if !(e >= 4 && p[e - 4] == '.' && p[e - 3] == '3' && p[e - 2] == 't' && p[e - 1] == 'z') {
            return None;
        }
        let inner = String::from_str("tileset.json");
        proof {
            reveal_strlit("tileset.json");
        }
        assert(inner@ == default_inner_path());
        Some((archive, inner))
    } else {
        let inner = String::from_str(path.substring_char(r, n));
        Some((archive, inner))
    }
}

} // verus!

verus! {

proof fn lemma_last_archive_end_bounds(p: Seq<char>, lo: int, hi: int)
    requires
        0 <= lo,
        hi <= p.len(),
    ensures
        last_archive_end(p, lo, hi) matches Some(e) ==> lo + 5 <= e <= hi && has_archive_ext_at(p, e),
        forall|e2: int| #![trigger has_archive_ext_at(p, e2)]
            (match last_archive_end(p, lo, hi) { Some(e) => e, None => lo + 4 }) < e2 <= hi && lo + 5 <= e2
                ==> !has_archive_ext_at(p, e2),
    decreases hi - lo,
{
    if hi >= lo + 5 && !has_archive_ext_at(p, hi) {
        lemma_last_archive_end_bounds(p, lo, hi - 1);
    }
}

proof fn lemma_last_archive_end_is(p: Seq<char>, lo: int, hi: int, e: int)
    requires
        0 <= lo,
        lo + 5 <= e <= hi <= p.len(),
        has_archive_ext_at(p, e),
        forall|e2: int| e < e2 <= hi ==> !#[trigger] has_archive_ext_at(p, e2),
    ensures
        last_archive_end(p, lo, hi) == Some(e),
    decreases hi - lo,
{
    if hi > e {
        lemma_last_archive_end_is(p, lo, hi - 1, e);
    }
}

/// The archive part and the inner part put back together (with the one
/// separator that was dropped, if any) give back the last line of the path,
/// whenever the inner part is not the default `tileset.json`.
pub proof fn lemma_split_reassembles(p: Seq<char>)
    requires
        spec_split_archive_parts(p) is Some,
        archive_match(p) matches Some((a, i)) && i.len() > 0,
    ensures
        ({
            let (a, i) = spec_split_archive_parts(p)->0;
            ||| p.skip(line_start(p)) == a + i
            ||| p.skip(line_start(p)) == a + seq!['/'] + i
            ||| p.skip(line_start(p)) == a + seq!['\\'] + i
        }),
        ({
            let (a, i) = spec_split_archive_parts(p)->0;
            has_archive_ext_at(a, a.len() as int)
        }),
{
    let lo = line_start(p);
    lemma_line_start_bounds(p, p.len() as int);
    lemma_last_archive_end_bounds(p, lo, p.len() as int);
    let e = last_archive_end(p, lo, p.len() as int)->0;
    let (a, i) = spec_split_archive_parts(p)->0;
    assert(a =~= p.subrange(lo, e));
    if e < p.len() && is_path_separator(p[e]) {
        if p[e] == '/' {
            assert(p.skip(lo) =~= a + seq!['/'] + i);
        } else {
            assert(p.skip(lo) =~= a + seq!['\\'] + i);
        }
    } else {
        assert(p.skip(lo) =~= a + i);
    }
}

/// The default inner path holds no archive extension.
proof fn lemma_default_inner_has_no_ext(u: Seq<char>, e2: int)
    requires
        u.len() < e2 <= u.len() + 13,
    ensures
        !has_archive_ext_at(u + seq!['/'] + default_inner_path(), e2),
{
    let q = u + seq!['/'] + default_inner_path();
    assert(q[u.len() as int] == '/');
    let d = default_inner_path();
    if e2 > u.len() + 1 {
        assert(q[e2 - 1] == d[e2 - 1 - u.len() - 1]);
    }
    assert(q[e2 - 1] != 'p' && q[e2 - 1] != 'z');
}

/// Naming a single-line `.3tz` archive and naming the `tileset.json` inside
/// it lead to the same archive entry.
pub proof fn lemma_archive_root_is_its_tileset(u: Seq<char>)
    requires
        u.len() >= 5,
        ends_with_3tz(u),
        forall|j: int| 0 <= j < u.len() ==> u[j] != '\n',
    ensures
        spec_split_archive_parts(u) == Some((u, default_inner_path())),
        spec_split_archive_parts(u + seq!['/'] + default_inner_path()) == Some((u, default_inner_path())),
{
    let q = u + seq!['/'] + default_inner_path();
    lemma_line_start_zero(u, u.len() as int);
    assert forall|j: int| 0 <= j < q.len() implies q[j] != '\n' by {
        if j >= u.len() as int + 1 {
            let d = default_inner_path();
            assert(q[j] == d[j - u.len() - 1]);
        }
    }
    lemma_line_start_zero(q, q.len() as int);
    assert(has_archive_ext_at(u, u.len() as int));
    lemma_last_archive_end_is(u, 0, u.len() as int, u.len() as int);
    assert(u.subrange(0, u.len() as int) =~= u);
    assert(u.subrange(u.len() as int, u.len() as int) =~= Seq::<char>::empty());
    assert(has_archive_ext_at(q, u.len() as int));
    assert forall|e2: int| u.len() < e2 <= q.len() implies !#[trigger] has_archive_ext_at(q, e2) by {
        lemma_default_inner_has_no_ext(u, e2);
    }
    lemma_last_archive_end_is(q, 0, q.len() as int, u.len() as int);
    assert(q.subrange(0, u.len() as int) =~= u);
    assert(q.subrange(u.len() as int + 1, q.len() as int) =~= default_inner_path());
}

proof fn lemma_line_start_zero(p: Seq<char>, i: int)
    requires
        0 <= i <= p.len(),
        forall|j: int| 0 <= j < p.len() ==> p[j] != '\n',
    ensures
        line_start_before(p, i) == 0,
    decreases i,
{
    if i > 0 {
        lemma_line_start_zero(p, i - 1);
    }
}

} // verus!
