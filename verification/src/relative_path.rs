use vstd::prelude::*;
use crate::text::chars_of;
use crate::uri::AbsoluteUri;

verus! {

/// The `/`-separated segments of `s`; there is always at least one.
pub open spec fn split_segments(s: Seq<char>) -> Seq<Seq<char>>
    decreases s.len(),
{
    if s.len() == 0 {
        seq![Seq::<char>::empty()]
    } else {
        let prev = split_segments(s.drop_last());
        if s.last() == '/' {
            prev.push(Seq::<char>::empty())
        } else {
            prev.update(prev.len() - 1, prev.last().push(s.last()))
        }
    }
}

/// The segments joined with `/` between neighbours.
pub open spec fn join_segments(segs: Seq<Seq<char>>) -> Seq<char>
    decreases segs.len(),
{
    if segs.len() == 0 {
        Seq::<char>::empty()
    } else if segs.len() == 1 {
        segs[0]
    } else {
        join_segments(segs.drop_last()) + seq!['/'] + segs.last()
    }
}

/// Position just past the last `/` in `s[..i]`, or 0 when there is none.
pub open spec fn after_last_slash(s: Seq<char>, i: int) -> int
    decreases i,
{
    if i <= 0 {
        0
    } else if s[i - 1] == '/' {
        i
    } else {
        after_last_slash(s, i - 1)
    }
}

/// The directory part of a base URI: everything up to and including its
/// last `/`, or the whole URI when it holds none.
pub open spec fn base_dir(base: Seq<char>) -> Seq<char> {
    let k = after_last_slash(base, base.len() as int);
    if k == 0 {
        base
    } else {
        base.subrange(0, k)
    }
}

/// Number of leading positions at which `a` and `b` hold equal segments.
pub open spec fn common_prefix_len(a: Seq<Seq<char>>, b: Seq<Seq<char>>, from: int) -> int
    decreases a.len() - from,
{
    if from < 0 || from >= a.len() || from >= b.len() || a[from] != b[from] {
        from
    } else {
        common_prefix_len(a, b, from + 1)
    }
}

/// `resolved` rewritten relative to the directory of `base`: the segments of
/// `resolved` after those it shares with that directory, joined with `/`.
pub open spec fn spec_relative_to_base_dir(resolved: Seq<char>, base: Seq<char>) -> Seq<char> {
    let bs = split_segments(base_dir(base));
    let rs = split_segments(resolved);
    join_segments(rs.skip(common_prefix_len(bs, rs, 0)))
}

pub proof fn lemma_split_nonempty(s: Seq<char>)
    ensures
        split_segments(s).len() >= 1,
    decreases s.len(),
{
    if s.len() > 0 {
        lemma_split_nonempty(s.drop_last());
    }
}

proof fn lemma_after_last_slash(s: Seq<char>, i: int)
    requires
        0 <= i <= s.len(),
    ensures
        0 <= after_last_slash(s, i) <= i,
        after_last_slash(s, i) > 0 ==> s[after_last_slash(s, i) - 1] == '/',
    decreases i,
{
    if i > 0 && s[i - 1] != '/' {
        lemma_after_last_slash(s, i - 1);
    }
}

/// Char ranges `[start, end)` of the `/`-separated segments of `s`.
fn segment_ranges(s: &Vec<char>) -> (r: Vec<(usize, usize)>)
    ensures
        r@.len() == split_segments(s@).len(),
        forall|k: int|
            0 <= k < r@.len() ==> {
                &&& (#[trigger] r@[k]).0 <= r@[k].1 <= s@.len()
                &&& s@.subrange(r@[k].0 as int, r@[k].1 as int) == split_segments(s@)[k]
            },
{
    let n = s.len();
    let mut r: Vec<(usize, usize)> = Vec::new();
    r.push((0, 0));
    let mut i: usize = 0;
    assert(s@.take(0) =~= Seq::<char>::empty());
    while i < n
        invariant
            n == s@.len(),
            0 <= i <= n,
            r@.len() == split_segments(s@.take(i as int)).len(),
            r@.len() >= 1,
            r@.last().1 == i,
            forall|k: int|
                0 <= k < r@.len() ==> {
                    &&& (#[trigger] r@[k]).0 <= r@[k].1 <= i
                    &&& s@.subrange(r@[k].0 as int, r@[k].1 as int) == split_segments(
                        s@.take(i as int),
                    )[k]
                },
        decreases n - i,
    {
        let ghost prev = split_segments(s@.take(i as int));
        assert(s@.take(i + 1).drop_last() =~= s@.take(i as int));
        assert(s@.take(i + 1).last() == s@[i as int]);
        if s[i] == '/' {
            r.push((i + 1, i + 1));
            proof {
                assert forall|k: int| 0 <= k < r@.len() implies {
                    &&& (#[trigger] r@[k]).0 <= r@[k].1 <= i + 1
                    &&& s@.subrange(r@[k].0 as int, r@[k].1 as int) == split_segments(
                        s@.take(i + 1),
                    )[k]
                } by {
                    if k == r@.len() - 1 {
                        assert(s@.subrange(i + 1, i + 1) =~= Seq::<char>::empty());
                    }
                }
            }
        } else {
            let last = r.len() - 1;
            let (a, _b) = r[last];
            r.set(last, (a, i + 1));
            proof {
                assert forall|k: int| 0 <= k < r@.len() implies {
                    &&& (#[trigger] r@[k]).0 <= r@[k].1 <= i + 1
                    &&& s@.subrange(r@[k].0 as int, r@[k].1 as int) == split_segments(
                        s@.take(i + 1),
                    )[k]
                } by {
                    if k == last {
                        assert(s@.subrange(a as int, i + 1) =~= s@.subrange(a as int, i as int).push(
                            s@[i as int],
                        ));
                    }
                }
            }
        }
        i = i + 1;
    }
    assert(s@.take(n as int) =~= s@);
    r
}

/// Whether `a[ra.0..ra.1]` and `b[rb.0..rb.1]` hold the same characters.
fn same_segment(a: &Vec<char>, ra: (usize, usize), b: &Vec<char>, rb: (usize, usize)) -> (r: bool)
    requires
        ra.0 <= ra.1 <= a@.len(),
        rb.0 <= rb.1 <= b@.len(),
    ensures
        r == (a@.subrange(ra.0 as int, ra.1 as int) == b@.subrange(rb.0 as int, rb.1 as int)),
{
    if ra.1 - ra.0 != rb.1 - rb.0 {
        assert(a@.subrange(ra.0 as int, ra.1 as int).len() != b@.subrange(rb.0 as int, rb.1 as int).len());
        return false;
    }
    let len = ra.1 - ra.0;
    let ghost sa = a@.subrange(ra.0 as int, ra.1 as int);
    let ghost sb = b@.subrange(rb.0 as int, rb.1 as int);
    let mut k: usize = 0;
    while k < len
        invariant
            len == ra.1 - ra.0,
            len == rb.1 - rb.0,
            ra.0 <= ra.1 <= a@.len(),
            rb.0 <= rb.1 <= b@.len(),
            0 <= k <= len,
            sa == a@.subrange(ra.0 as int, ra.1 as int),
            sb == b@.subrange(rb.0 as int, rb.1 as int),
            forall|j: int| 0 <= j < k ==> #[trigger] sa[j] == sb[j],
        decreases len - k,
    {
        assert(sa[k as int] == a@[ra.0 + k]);
        assert(sb[k as int] == b@[rb.0 + k]);
        if a[ra.0 + k] != b[rb.0 + k] {
            return false;
        }
        k = k + 1;
    }
    assert(sa =~= sb);
    true
}

/// Rewrites `resolved` relative to the directory of `base_uri`: the segments
/// that both share from the start are dropped and the rest are joined with `/`.
pub fn uri_relative_to_base_dir(resolved: &str, base_uri: &AbsoluteUri) -> (r: String)
    ensures
        r@ == spec_relative_to_base_dir(resolved@, base_uri@),
{
    let b = chars_of(base_uri.as_str());
    let rc = chars_of(resolved);
    // Directory of the base.
    let mut k: usize = b.len();
    while k > 0 && b[k - 1] != '/'
        invariant
            0 <= k <= b@.len(),
            after_last_slash(b@, b@.len() as int) == after_last_slash(b@, k as int),
        decreases k,
    {
        k = k - 1;
    }
    let dir_end = if k == 0 {
        b.len()
    } else {
        k
    };
    let mut dir: Vec<char> = Vec::new();
    let mut j: usize = 0;
    while j < dir_end
        invariant
            0 <= j <= dir_end <= b@.len(),
            dir@ == b@.subrange(0, j as int),
        decreases dir_end - j,
    {
        dir.push(b[j]);
        j = j + 1;
        assert(dir@ =~= b@.subrange(0, j as int));
    }
    assert(dir@ == base_dir(b@)) by {
        if k != 0 {
        } else {
            assert(b@.subrange(0, b@.len() as int) =~= b@);
        }
    }
    let bs = segment_ranges(&dir);
    let rs = segment_ranges(&rc);
    let ghost sbs = split_segments(dir@);
    let ghost srs = split_segments(rc@);
    // Length of the shared leading segments.
    let mut d: usize = 0;
    while d < bs.len() && d < rs.len() && same_segment(&dir, bs[d], &rc, rs[d])
        invariant
            bs@.len() == sbs.len(),
            rs@.len() == srs.len(),
            0 <= d <= bs@.len(),
            d <= rs@.len(),
            common_prefix_len(sbs, srs, 0) == common_prefix_len(sbs, srs, d as int),
            forall|q: int|
                0 <= q < bs@.len() ==> {
                    &&& (#[trigger] bs@[q]).0 <= bs@[q].1 <= dir@.len()
                    &&& dir@.subrange(bs@[q].0 as int, bs@[q].1 as int) == sbs[q]
                },
            forall|q: int|
                0 <= q < rs@.len() ==> {
                    &&& (#[trigger] rs@[q]).0 <= rs@[q].1 <= rc@.len()
                    &&& rc@.subrange(rs@[q].0 as int, rs@[q].1 as int) == srs[q]
                },
        decreases bs@.len() - d,
    {
        d = d + 1;
    }
    // Join the remaining segments of `resolved`.
    let mut out = String::new();
    let mut q: usize = d;
    let ghost tail = srs.skip(d as int);
    proof {
        reveal_strlit("/");
    }
    while q < rs.len()
        invariant
            0 <= d <= q <= rs@.len(),
            rs@.len() == srs.len(),
            tail == srs.skip(d as int),
            out@ == join_segments(tail.take(q - d)),
            forall|p: int|
                0 <= p < rs@.len() ==> {
                    &&& (#[trigger] rs@[p]).0 <= rs@[p].1 <= rc@.len()
                    &&& rc@.subrange(rs@[p].0 as int, rs@[p].1 as int) == srs[p]
                },
            rc@ == resolved@,
            "/"@ == seq!['/'],
        decreases rs@.len() - q,
    {
        let (a, e) = rs[q];
        let piece = resolved.substring_char(a, e);
        assert(tail.take(q + 1 - d).drop_last() =~= tail.take(q - d));
        assert(tail.take(q + 1 - d).last() == srs[q as int]);
        if q > d {
            out.append("/");
        }
        out.append(piece);
        q = q + 1;
        proof {
            if q - 1 == d {
                assert(tail.take(q - d) =~= seq![srs[d as int]]);
                assert(out@ =~= srs[d as int]);
            }
        }
    }
    assert(tail.take(rs@.len() - d) =~= tail);
    out
}

} // verus!

verus! {

proof fn lemma_split_concat(a: Seq<char>, b: Seq<char>)
    ensures
        split_segments(a + seq!['/'] + b) == split_segments(a) + split_segments(b),
    decreases b.len(),
{
    lemma_split_nonempty(a);
    if b.len() == 0 {
        assert(a + seq!['/'] + b =~= a.push('/'));
        assert((a + seq!['/'] + b).drop_last() =~= a);
        assert(split_segments(a).push(Seq::<char>::empty()) =~= split_segments(a) + split_segments(b));
    } else {
        let b0 = b.drop_last();
        lemma_split_concat(a, b0);
        lemma_split_nonempty(b0);
        assert((a + seq!['/'] + b).drop_last() =~= a + seq!['/'] + b0);
        assert((a + seq!['/'] + b).last() == b.last());
        let prev = split_segments(a + seq!['/'] + b0);
        if b.last() == '/' {
            assert(prev.push(Seq::<char>::empty()) =~= split_segments(a) + split_segments(b));
        } else {
            let pb = split_segments(b0);
            assert(prev.update(prev.len() - 1, prev.last().push(b.last())) =~= split_segments(a)
                + pb.update(pb.len() - 1, pb.last().push(b.last())));
        }
    }
}

proof fn lemma_join_push_last(segs: Seq<Seq<char>>, c: char)
    requires
        segs.len() >= 1,
    ensures
        join_segments(segs.update(segs.len() - 1, segs.last().push(c))) == join_segments(segs).push(
            c,
        ),
{
    let u = segs.update(segs.len() - 1, segs.last().push(c));
    if segs.len() == 1 {
    } else {
        assert(u.drop_last() =~= segs.drop_last());
        assert(join_segments(u) =~= join_segments(segs).push(c));
    }
}

proof fn lemma_join_split(x: Seq<char>)
    ensures
        join_segments(split_segments(x)) == x,
    decreases x.len(),
{
    if x.len() == 0 {
    } else {
        let x0 = x.drop_last();
        lemma_join_split(x0);
        lemma_split_nonempty(x0);
        let prev = split_segments(x0);
        if x.last() == '/' {
            assert(prev.push(Seq::<char>::empty()).drop_last() =~= prev);
            assert(join_segments(prev.push(Seq::<char>::empty())) =~= x0 + seq!['/']);
            assert(x0 + seq!['/'] =~= x);
        } else {
            lemma_join_push_last(prev, x.last());
            assert(x0.push(x.last()) =~= x);
        }
    }
}

proof fn lemma_first_segment_nonempty(r: Seq<char>)
    requires
        r.len() > 0,
        r[0] != '/',
    ensures
        split_segments(r)[0].len() > 0,
    decreases r.len(),
{
    let r0 = r.drop_last();
    lemma_split_nonempty(r0);
    if r0.len() > 0 {
        lemma_first_segment_nonempty(r0);
    }
}

proof fn lemma_common_prefix_at(a: Seq<Seq<char>>, b: Seq<Seq<char>>, from: int, m: int)
    requires
        0 <= from <= m,
        m <= a.len(),
        m <= b.len(),
        forall|i: int| from <= i < m ==> a[i] == b[i],
        m == a.len() || m == b.len() || a[m] != b[m],
    ensures
        common_prefix_len(a, b, from) == m,
    decreases m - from,
{
    if from < m {
        lemma_common_prefix_at(a, b, from + 1, m);
    }
}

/// A URI in the directory of `base` (one that is that directory followed by a
/// path not starting with `/`) is rewritten to exactly that path.
pub proof fn lemma_relative_to_own_dir(base: Seq<char>, r: Seq<char>)
    requires
        after_last_slash(base, base.len() as int) > 0,
        r.len() == 0 || r[0] != '/',
    ensures
        spec_relative_to_base_dir(base_dir(base) + r, base) == r,
{
    let k = after_last_slash(base, base.len() as int);
    lemma_after_last_slash(base, base.len() as int);
    let d = base.subrange(0, k - 1);
    assert(base_dir(base) =~= d + seq!['/'] + Seq::<char>::empty());
    assert(base_dir(base) + r =~= d + seq!['/'] + r);
    lemma_split_concat(d, Seq::<char>::empty());
    lemma_split_concat(d, r);
    lemma_split_nonempty(r);
    let bs = split_segments(base_dir(base));
    let rs = split_segments(base_dir(base) + r);
    let m = split_segments(d).len() as int;
    if r.len() == 0 {
        assert(bs =~= rs);
        lemma_common_prefix_at(bs, rs, 0, bs.len() as int);
        assert(rs.skip(rs.len() as int) =~= Seq::<Seq<char>>::empty());
    } else {
        lemma_first_segment_nonempty(r);
        assert(bs[m] =~= Seq::<char>::empty());
        assert(rs[m] == split_segments(r)[0]);
        lemma_common_prefix_at(bs, rs, 0, m);
        assert(rs.skip(m) =~= split_segments(r));
        lemma_join_split(r);
    }
}

} // verus!
