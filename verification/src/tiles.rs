use vstd::prelude::*;
use crate::error::ResourceError;
use crate::uri::{AbsoluteUri, is_absolute_uri, is_uri_reference, resolve_against, uri_resolve};
use crate::relative_path::{spec_relative_to_base_dir, uri_relative_to_base_dir};

verus! {

/// A tile of a 3D tiles tree, as far as tile search and URI rewriting read
/// it: the URI of its content, if it has content; the level of its grid
/// extension, if it has one; its children; and everything else about it,
/// which is carried along unread.
pub struct Tile<P> {
    pub content_uri: Option<String>,
    pub grid_level: Option<i32>,
    pub children: Vec<Tile<P>>,
    pub rest: P,
}

/// A content URI rewritten for the root tileset: resolved against the base
/// URI of the tile's own tileset, then made relative to the directory of
/// the root tileset.
pub open spec fn rewritten_uri(u: Seq<char>, tile_base: Seq<char>, root: Seq<char>) -> Seq<char> {
    spec_relative_to_base_dir(uri_resolve(u, tile_base), root)
}

/// Every content URI in the tree is a URI reference.
pub open spec fn content_refs_valid<P>(t: Tile<P>) -> bool
    decreases t,
{
    &&& (t.content_uri matches Some(u) ==> is_uri_reference(u@))
    &&& forall|i: int| 0 <= i < t.children@.len() ==> content_refs_valid(#[trigger] t.children@[i])
}

/// `new` is `old` with every content URI rewritten for the root tileset;
/// nothing else differs.
pub open spec fn uris_rewritten<P>(old: Tile<P>, new: Tile<P>, tile_base: Seq<char>, root: Seq<char>) -> bool
    decreases old,
{
    &&& new.grid_level == old.grid_level
    &&& new.rest == old.rest
    &&& match old.content_uri {
        None => new.content_uri is None,
        Some(u) => new.content_uri matches Some(v) && v@ == rewritten_uri(u@, tile_base, root),
    }
    &&& new.children@.len() == old.children@.len()
    &&& forall|i: int| 0 <= i < old.children@.len() ==> uris_rewritten(#[trigger] old.children@[i], new.children@[i], tile_base, root)
}

/// The first `i` trees of `s` have only valid content URIs.
pub open spec fn all_valid_before<P>(s: Seq<Tile<P>>, i: int) -> bool {
    forall|j: int| 0 <= j < i ==> content_refs_valid(#[trigger] s[j])
}

/// `new` is `old` rewritten up to the first tile, in pre-order, whose content
/// URI is no URI reference: the tiles before it are rewritten as
/// `uris_rewritten` says, and that tile and all after it are unchanged.
pub open spec fn rewritten_until_invalid<P>(old: Tile<P>, new: Tile<P>, tile_base: Seq<char>, root: Seq<char>) -> bool
    decreases old,
{
    if old.content_uri matches Some(u) && !is_uri_reference(u@) {
        new == old
    } else {
        &&& new.grid_level == old.grid_level
        &&& new.rest == old.rest
        &&& match old.content_uri {
            None => new.content_uri is None,
            Some(u) => new.content_uri matches Some(v) && v@ == rewritten_uri(u@, tile_base, root),
        }
        &&& new.children@.len() == old.children@.len()
        &&& forall|i: int| 0 <= i < old.children@.len() ==> {
            if !all_valid_before(old.children@, i) {
                new.children@[i] == old.children@[i]
            } else if content_refs_valid(old.children@[i]) {
                uris_rewritten(old.children@[i], new.children@[i], tile_base, root)
            } else {
                rewritten_until_invalid(#[trigger] old.children@[i], new.children@[i], tile_base, root)
            }
        }
    }
}

/// Rewrites every content URI of the tree, resolving it against the base URI
/// of the tile's tileset and making it relative to the directory of the root
/// tileset. Fails when some content URI is no URI reference.
pub fn rewrite_tile_uris_relative_to_root<P>(
    tile: &mut Tile<P>,
    tile_base_uri: &AbsoluteUri,
    root_tileset_uri: &AbsoluteUri,
) -> (r: Result<(), ResourceError>)
    ensures
        r is Ok <==> content_refs_valid(*old(tile)),
        r is Ok ==> uris_rewritten(*old(tile), *final(tile), tile_base_uri@, root_tileset_uri@),
        r is Err ==> rewritten_until_invalid(*old(tile), *final(tile), tile_base_uri@, root_tileset_uri@),
        r matches Err(e) ==> e is InvalidUri,
    decreases *old(tile),
{
    match &tile.content_uri {
        None => {},
        Some(u) => {
            let resolved = match resolve_against(u.as_str(), tile_base_uri) {
                Ok(t) => t,
                Err(e) => return Err(e),
            };
            let rel = uri_relative_to_base_dir(resolved.as_str(), root_tileset_uri);
            tile.content_uri = Some(rel);
        },
    }
    let ghost content_after = tile.content_uri;
    let mut kids: Vec<Tile<P>> = Vec::new();
    std::mem::swap(&mut kids, &mut tile.children);
    let ghost old_kids = kids@;
    let n = kids.len();
    let mut i: usize = 0;
    while i < n
        invariant
            n == kids@.len(),
            n == old_kids.len(),
            old_kids == old(tile).children@,
            tile.grid_level == old(tile).grid_level,
            tile.rest == old(tile).rest,
            tile.content_uri == content_after,
            0 <= i <= n,
            forall|j: int| i <= j < n ==> kids@[j] == old_kids[j],
            forall|j: int| 0 <= j < i ==> content_refs_valid(#[trigger] old_kids[j]),
            forall|j: int| 0 <= j < i ==> uris_rewritten(#[trigger] old_kids[j], kids@[j], tile_base_uri@, root_tileset_uri@),
            old(tile).content_uri matches Some(u) ==> is_uri_reference(u@),
            match old(tile).content_uri {
                None => content_after is None,
                Some(u) => content_after matches Some(v) && v@ == rewritten_uri(u@, tile_base_uri@, root_tileset_uri@),
            },
        decreases n - i,
    {
        proof {
            assert(decreases_to!(*old(tile) => old(tile).children));
            assert(decreases_to!(old(tile).children => old(tile).children@));
            assert(decreases_to!(old(tile).children@ => old(tile).children@[i as int]));
        }
        let res = rewrite_tile_uris_relative_to_root(&mut kids[i], tile_base_uri, root_tileset_uri);
        match res {
            Ok(()) => {},
            Err(e) => {
                std::mem::swap(&mut kids, &mut tile.children);
                proof {
                    assert(all_valid_before(old(tile).children@, i as int));
                    assert forall|j: int| 0 <= j < old(tile).children@.len() implies {
                        if !all_valid_before(old(tile).children@, j) {
                            tile.children@[j] == old(tile).children@[j]
                        } else if content_refs_valid(old(tile).children@[j]) {
                            uris_rewritten(old(tile).children@[j], tile.children@[j], tile_base_uri@, root_tileset_uri@)
                        } else {
                            rewritten_until_invalid(#[trigger] old(tile).children@[j], tile.children@[j], tile_base_uri@, root_tileset_uri@)
                        }
                    } by {
                        if j > i {
                            assert(!content_refs_valid(old(tile).children@[i as int]));
                            assert(!all_valid_before(old(tile).children@, j));
                        } else if j < i {
                            assert(all_valid_before(old(tile).children@, j));
                            assert(content_refs_valid(old_kids[j]));
                        }
                    }
                }
                return Err(e);
            },
        }
        i = i + 1;
    }
    std::mem::swap(&mut kids, &mut tile.children);
    Ok(())
}

} // verus!

verus! {

/// A tile with the base URI of the tileset it belongs to.
pub type Located<P> = (Tile<P>, Seq<char>);

/// The tiles of a tree in pre-order (a tile before its children, children
/// in order), each with the base URI `base`.
pub open spec fn preorder_tree<P>(t: Tile<P>, base: Seq<char>) -> Seq<Located<P>>
    decreases t, 1nat,
{
    seq![(t, base)] + preorder_forest(t.children@, base)
}

/// The tiles of the trees in `s`, one tree after the other, in pre-order.
pub open spec fn preorder_forest<P>(s: Seq<Tile<P>>, base: Seq<char>) -> Seq<Located<P>>
    decreases s, 0nat,
{
    if s.len() == 0 {
        Seq::empty()
    } else {
        preorder_tree(s[0], base) + preorder_forest(s.drop_first(), base)
    }
}

/// The tiles still to be searched, in search order: the trees of a stack
/// whose top is its last element, top tree first.
pub open spec fn preorder_stack<P>(s: Seq<(Tile<P>, AbsoluteUri)>) -> Seq<Located<P>>
    decreases s.len(),
{
    if s.len() == 0 {
        Seq::empty()
    } else {
        preorder_tree(s.last().0, s.last().1@) + preorder_stack(s.drop_last())
    }
}

/// `s` ends with `.json`.
pub open spec fn ends_with_json(s: Seq<char>) -> bool {
    crate::text::ends_with(s, ".json"@)
}

/// The tile has grid level `level`.
pub open spec fn at_level<P>(t: Tile<P>, level: i32) -> bool {
    t.grid_level == Some(level)
}

/// The tile's content is a tileset of its own (its URI ends with `.json`).
pub open spec fn has_external_tileset<P>(t: Tile<P>) -> bool {
    t.content_uri matches Some(u) && ends_with_json(u@)
}

/// The search stops at the tile: it is at the level sought, or its content
/// is a tileset to be searched first.
pub open spec fn stops_search<P>(t: Tile<P>, level: i32) -> bool {
    at_level(t, level) || has_external_tileset(t)
}

/// Index of the first tile from `i` on at which the search stops, or the
/// length when there is none.
pub open spec fn first_stop_from<P>(pre: Seq<Located<P>>, level: i32, i: int) -> int
    decreases pre.len() - i,
{
    if i < 0 || i >= pre.len() {
        pre.len() as int
    } else if stops_search(pre[i].0, level) {
        i
    } else {
        first_stop_from(pre, level, i + 1)
    }
}

/// A search for the first tile at a grid level, in pre-order, which enters
/// the tileset behind a tile's `.json` content before the tile's children.
/// `stack` holds the trees still to be searched (top last) with their
/// tilesets' base URIs; `pending` holds, while an external tileset is being
/// fetched, the children still to be searched after it, their base URI, and
/// the tileset's URI.
pub struct TileSearch<P> {
    pub content_level: i32,
    pub stack: Vec<(Tile<P>, AbsoluteUri)>,
    pub pending: Option<(Vec<Tile<P>>, AbsoluteUri, AbsoluteUri)>,
}

/// Where a search has got to.
pub enum SearchStep<P> {
    /// The tileset at this URI is to be fetched and handed to `resume`.
    LoadExternal(AbsoluteUri),
    /// The first tile at the level, with the base URI of its tileset.
    Found(Tile<P>, AbsoluteUri),
    /// No tile at the level was found.
    NotFound,
    /// An external tileset's URI could not be formed.
    Failed(ResourceError),
}

proof fn lemma_first_stop_at<P>(pre: Seq<Located<P>>, level: i32, i: int, k: int)
    requires
        0 <= i <= k <= pre.len(),
        forall|j: int| i <= j < k ==> !stops_search(#[trigger] pre[j].0, level),
        k == pre.len() || stops_search(pre[k].0, level),
    ensures
        first_stop_from(pre, level, i) == k,
    decreases k - i,
{
    if i < k {
        lemma_first_stop_at(pre, level, i + 1, k);
    }
}

/// Pushes the trees `kids` onto the stack so that the first is on top, each
/// with base URI `base`.
fn push_children<P>(stack: &mut Vec<(Tile<P>, AbsoluteUri)>, kids: Vec<Tile<P>>, base: &AbsoluteUri)
    ensures
        preorder_stack(final(stack)@) == preorder_forest(kids@, base@) + preorder_stack(old(stack)@),
{
    let mut kids = kids;
    let ghost all = kids@;
    let ghost m = all.len() as int;
    let ghost rest = stack@;
    proof {
        assert(all.subrange(m, m) =~= Seq::<Tile<P>>::empty());
        assert(preorder_forest(all.subrange(m, m), base@) =~= Seq::<Located<P>>::empty());
        assert(preorder_stack(stack@) =~= preorder_forest(all.subrange(m, m), base@) + preorder_stack(rest));
    }
    while kids.len() > 0
        invariant
            all.len() == m,
            kids@ == all.take(kids@.len() as int),
            kids@.len() <= m,
            preorder_stack(stack@) == preorder_forest(all.subrange(kids@.len() as int, m), base@) + preorder_stack(rest),
        decreases kids@.len(),
    {
        let ghost j = kids@.len() as int;
        let c = kids.pop().unwrap();
        let ghost st = stack@;
        stack.push((c, base.duplicate()));
        proof {
            assert(kids@ =~= all.take(j - 1));
            assert(c == all[j - 1]);
            assert(stack@.drop_last() =~= st);
            let sub = all.subrange(j - 1, m);
            assert(sub[0] == c);
            assert(sub.drop_first() =~= all.subrange(j, m));
            assert(preorder_stack(stack@) =~= preorder_tree(c, base@) + preorder_stack(st));
        }
    }
    assert(all.subrange(0, m) =~= all);
}

impl<P> TileSearch<P> {
    /// A search of the tree under `root`, whose tileset has base URI `base`,
    /// for tiles at grid level `content_level`.
    pub fn new(root: Tile<P>, base: AbsoluteUri, content_level: i32) -> (r: TileSearch<P>)
        ensures
            r.content_level == content_level,
            r.pending is None,
            preorder_stack(r.stack@) == preorder_tree(root, base@),
    {
        let mut stack: Vec<(Tile<P>, AbsoluteUri)> = Vec::new();
        let ghost b = base@;
        let ghost t = root;
        stack.push((root, base));
        assert(stack@.drop_last() =~= Seq::<(Tile<P>, AbsoluteUri)>::empty());
        assert(stack@.last().0 == t);
        assert(stack@.last().1@ == b);
        assert(preorder_stack(stack@.drop_last()) =~= Seq::<Located<P>>::empty());
        assert(preorder_stack(stack@) =~= preorder_tree(t, b));
        TileSearch { content_level, stack, pending: None }
    }

    /// Searches on until the search stops: at the first tile, in search
    /// order, that is at the level sought (found), or whose content is a
    /// tileset (which is to be fetched, or whose URI cannot be formed); or
    /// until no tile is left (not found).
    pub fn advance(&mut self) -> (r: SearchStep<P>)
        requires
            old(self).pending is None,
        ensures
            final(self).content_level == old(self).content_level,
            first_stop_from(preorder_stack(old(self).stack@), old(self).content_level, 0)
                <= preorder_stack(old(self).stack@).len(),
            ({
                let pre = preorder_stack(old(self).stack@);
                let level = old(self).content_level;
                let k = first_stop_from(pre, level, 0);
                if k == pre.len() {
                    r is NotFound && final(self).stack@.len() == 0 && final(self).pending is None
                } else {
                    let t = pre[k].0;
                    let b = pre[k].1;
                    if at_level(t, level) {
                        r matches SearchStep::Found(ft, fb) && ft == t && fb@ == b
                    } else {
                        let u = t.content_uri->0@;
                        if !is_uri_reference(u) || !is_absolute_uri(uri_resolve(u, b)) {
                            r matches SearchStep::Failed(ResourceError::InvalidUri(_))
                        } else {
                            &&& r matches SearchStep::LoadExternal(x) && x@ == uri_resolve(u, b)
                            &&& final(self).pending matches Some((kids, kb, ku)) && kids@ == t.children@
                                && kb@ == b && ku@ == uri_resolve(u, b)
                            &&& pre == pre.take(k) + preorder_tree(t, b) + preorder_stack(final(self).stack@)
                        }
                    }
                }
            }),
    {
        let ghost pre = preorder_stack(self.stack@);
        let ghost level = self.content_level;
        let ghost mut skipped: Seq<Located<P>> = Seq::empty();
        proof {
            lemma_first_stop_bounds(pre, level, 0);
        }
        loop
            invariant_except_break
                self.pending is None,
                self.content_level == level,
                pre == preorder_stack(old(self).stack@),
                level == old(self).content_level,
                pre == skipped + preorder_stack(self.stack@),
                forall|j: int| 0 <= j < skipped.len() ==> !stops_search(#[trigger] skipped[j].0, level),
            ensures
                self.content_level == level,
            decreases preorder_stack(self.stack@).len(),
        {
            if self.stack.len() == 0 {
                proof {
                    assert(preorder_stack(self.stack@) =~= Seq::<Located<P>>::empty());
                    assert(pre =~= skipped);
                    lemma_first_stop_at(pre, level, 0, pre.len() as int);
                }
                return SearchStep::NotFound;
            }
            let ghost before = self.stack@;
            let (t, b) = self.stack.pop().unwrap();
            let ghost rest = self.stack@;
            let ghost gt = t;
            proof {
                assert(before.drop_last() =~= rest);
                assert(pre =~= skipped + preorder_tree(gt, b@) + preorder_stack(rest));
                assert(preorder_tree(gt, b@)[0] == (gt, b@));
                assert(pre[skipped.len() as int] == (gt, b@));
                assert forall|j: int| 0 <= j < skipped.len() implies !stops_search(#[trigger] pre[j].0, level) by {
                    assert(pre[j] == skipped[j]);
                }
            }
            let matches_level = match t.grid_level {
                Some(l) => l == self.content_level,
                None => false,
            };
            if matches_level {
                proof {
                    lemma_first_stop_at(pre, level, 0, skipped.len() as int);
                }
                return SearchStep::Found(t, b);
            }
            let is_json = match &t.content_uri {
                Some(u) => crate::text::str_ends_with(u.as_str(), ".json"),
                None => false,
            };
            proof {
                reveal_strlit(".json");
            }
            let Tile { content_uri, grid_level: _, children, rest: _ } = t;
            if is_json {
                proof {
                    lemma_first_stop_at(pre, level, 0, skipped.len() as int);
                    assert(pre.take(skipped.len() as int) =~= skipped);
                }
                let u = match content_uri {
                    Some(u) => u,
                    None => {
                        assert(false);
                        String::new()
                    },
                };
                let resolved = match resolve_against(u.as_str(), &b) {
                    Ok(x) => x,
                    Err(e) => return SearchStep::Failed(e),
                };
                let x = match AbsoluteUri::new(resolved.as_str()) {
                    Ok(x) => x,
                    Err(e) => return SearchStep::Failed(e),
                };
                self.pending = Some((children, b, x.duplicate()));
                return SearchStep::LoadExternal(x);
            }
            proof {
                skipped = skipped.push((gt, b@));
            }
            let ghost mid = self.stack@;
            push_children(&mut self.stack, children, &b);
            proof {
                assert(mid == rest);
                assert(preorder_tree(gt, b@) =~= seq![(gt, b@)] + preorder_forest(gt.children@, b@));
                assert(pre =~= skipped + preorder_stack(self.stack@));
            }
        }
    }

    /// Continues the search with the fetched tileset whose root is
    /// `external_root`: its tree is searched next (with the tileset's URI as
    /// base), then the children of the tile that named it.
    pub fn resume(&mut self, external_root: Tile<P>)
        requires
            old(self).pending is Some,
        ensures
            final(self).content_level == old(self).content_level,
            final(self).pending is None,
            ({
                let (kids, kb, ku) = old(self).pending->0;
                preorder_stack(final(self).stack@) == preorder_tree(external_root, ku@) + preorder_forest(kids@, kb@)
                    + preorder_stack(old(self).stack@)
            }),
    {
        let pending = self.pending.take();
        let (kids, kb, ku) = pending.unwrap();
        let ghost st0 = self.stack@;
        push_children(&mut self.stack, kids, &kb);
        let ghost st1 = self.stack@;
        let ghost r = external_root;
        let ghost u = ku@;
        self.stack.push((external_root, ku));
        proof {
            assert(self.stack@.drop_last() =~= st1);
            assert(preorder_stack(self.stack@) =~= preorder_tree(r, u) + preorder_stack(st1));
        }
    }
}

} // verus!

verus! {

/// Why no content root tile could be formed.
#[derive(Debug)]
pub enum ContentRootError {
    /// No tile at the level sought exists.
    NoTileAtLevel(String),
    /// Some content URI of the found tile is no URI reference.
    InvalidUri(ResourceError),
}

/// Message of the error for a level at which no tile was found.
pub open spec fn no_tile_message(level: i32) -> Seq<char> {
    "No tile found at level "@ + crate::text::signed_decimal(level as int)
}

/// Turns the outcome of a tile search into the root tile of a content
/// tileset: the found tile, with its content URIs rewritten for the root
/// tileset at `root_tileset_uri`.
pub fn content_root_tile<P>(
    found: Option<(Tile<P>, AbsoluteUri)>,
    root_tileset_uri: &AbsoluteUri,
    content_level: i32,
) -> (r: Result<Tile<P>, ContentRootError>)
    ensures
        found is None ==> (r matches Err(ContentRootError::NoTileAtLevel(m)) && m@ == no_tile_message(content_level)),
        found matches Some((t, b)) ==> {
            &&& (r is Ok <==> content_refs_valid(t))
            &&& r matches Ok(nt) ==> uris_rewritten(t, nt, b@, root_tileset_uri@)
            &&& r matches Err(e) ==> e matches ContentRootError::InvalidUri(ResourceError::InvalidUri(_))
        },
{
    match found {
        None => {
            let mut m = String::from_str("No tile found at level ");
            crate::text::append_signed_decimal(&mut m, content_level);
            Err(ContentRootError::NoTileAtLevel(m))
        },
        Some((t, b)) => {
            let mut tile = t;
            match rewrite_tile_uris_relative_to_root(&mut tile, &b, root_tileset_uri) {
                Ok(()) => Ok(tile),
                Err(e) => Err(ContentRootError::InvalidUri(e)),
            }
        },
    }
}

} // verus!

verus! {

/// The order in which a search for level `level` meets tiles, given the
/// tilesets it fetches (`loads`, in the order fetched): the pre-order of
/// `pre`, where a tile whose content is a tileset (and that is not itself at
/// the level) is followed by the pre-order of the next fetched tileset, based
/// at that tileset's URI, before the tile's own children.
pub open spec fn search_order<P>(pre: Seq<Located<P>>, loads: Seq<Tile<P>>, level: i32) -> Seq<Located<P>>
    decreases loads.len(), pre.len(),
{
    if pre.len() == 0 {
        Seq::empty()
    } else {
        let t = pre[0].0;
        let b = pre[0].1;
        if !at_level(t, level) && has_external_tileset(t) && loads.len() > 0 {
            seq![pre[0]] + search_order(
                preorder_tree(loads[0], uri_resolve(t.content_uri->0@, b)) + pre.drop_first(),
                loads.drop_first(),
                level,
            )
        } else {
            seq![pre[0]] + search_order(pre.drop_first(), loads, level)
        }
    }
}

/// Index of the first tile from `i` on that is at `level`, or the length
/// when there is none.
pub open spec fn first_at_level_from<P>(s: Seq<Located<P>>, level: i32, i: int) -> int
    decreases s.len() - i,
{
    if i < 0 || i >= s.len() {
        s.len() as int
    } else if at_level(s[i].0, level) {
        i
    } else {
        first_at_level_from(s, level, i + 1)
    }
}

/// One round of a search: from the tiles `pre` still to be searched, the
/// search stops at a tile whose content is a tileset (not at the level), and
/// after the fetched tileset `load` is handed back the tiles still to be
/// searched are `next`: the fetched tree, then the rest after that tile.
pub open spec fn is_fetch_round<P>(pre: Seq<Located<P>>, load: Tile<P>, next: Seq<Located<P>>, level: i32) -> bool {
    let k = first_stop_from(pre, level, 0);
    &&& k < pre.len()
    &&& !at_level(pre[k].0, level)
    &&& next == preorder_tree(load, uri_resolve(pre[k].0.content_uri->0@, pre[k].1)) + pre.skip(k + 1)
}

/// `pres` are the tiles still to be searched at the start of each round of a
/// search, with `loads[i]` the tileset fetched in round `i`.
pub open spec fn is_search_trace<P>(pres: Seq<Seq<Located<P>>>, loads: Seq<Tile<P>>, level: i32) -> bool {
    &&& pres.len() == loads.len() + 1
    &&& forall|i: int| 0 <= i < loads.len() ==> is_fetch_round(#[trigger] pres[i], loads[i], pres[i + 1], level)
}

proof fn lemma_first_stop_bounds<P>(pre: Seq<Located<P>>, level: i32, i: int)
    requires
        0 <= i <= pre.len(),
    ensures
        i <= first_stop_from(pre, level, i) <= pre.len(),
        forall|j: int| i <= j < first_stop_from(pre, level, i) ==> !stops_search(#[trigger] pre[j].0, level),
        first_stop_from(pre, level, i) < pre.len() ==> stops_search(pre[first_stop_from(pre, level, i)].0, level),
    decreases pre.len() - i,
{
    if i < pre.len() && !stops_search(pre[i].0, level) {
        lemma_first_stop_bounds(pre, level, i + 1);
    }
}

/// Tiles at which the search does not stop come out of `search_order` as
/// they are.
proof fn lemma_order_skips<P>(pre: Seq<Located<P>>, loads: Seq<Tile<P>>, level: i32, k: int)
    requires
        0 <= k <= pre.len(),
        forall|j: int| 0 <= j < k ==> !stops_search(#[trigger] pre[j].0, level),
    ensures
        search_order(pre, loads, level) == pre.take(k) + search_order(pre.skip(k), loads, level),
    decreases k,
{
    if k == 0 {
        assert(pre.skip(0) =~= pre);
        assert(pre.take(0) =~= Seq::<Located<P>>::empty());
    } else {
        assert forall|j: int| 0 <= j < k - 1 implies !stops_search(#[trigger] pre.drop_first()[j].0, level) by {
            assert(pre.drop_first()[j] == pre[j + 1]);
        }
        lemma_order_skips(pre.drop_first(), loads, level, k - 1);
        assert(!stops_search(pre[0].0, level));
        assert(pre.drop_first().skip(k - 1) =~= pre.skip(k));
        assert(pre.take(k) =~= seq![pre[0]] + pre.drop_first().take(k - 1));
    }
}

proof fn lemma_first_at_level_after<P>(prefix: Seq<Located<P>>, s: Seq<Located<P>>, level: i32, i: int)
    requires
        0 <= i <= prefix.len(),
        forall|j: int| 0 <= j < prefix.len() ==> !at_level(#[trigger] prefix[j].0, level),
    ensures
        first_at_level_from(prefix + s, level, i) == prefix.len() + first_at_level_from(s, level, 0),
    decreases prefix.len() + s.len() - i,
{
    if i < prefix.len() {
        assert((prefix + s)[i] == prefix[i]);
        lemma_first_at_level_after(prefix, s, level, i + 1);
    } else {
        lemma_first_at_level_shift(prefix, s, level, 0);
    }
}

proof fn lemma_first_at_level_shift<P>(prefix: Seq<Located<P>>, s: Seq<Located<P>>, level: i32, j: int)
    requires
        0 <= j <= s.len(),
    ensures
        first_at_level_from(prefix + s, level, prefix.len() + j) == prefix.len() + first_at_level_from(s, level, j),
    decreases s.len() - j,
{
    if j < s.len() {
        assert((prefix + s)[prefix.len() + j] == s[j]);
        lemma_first_at_level_shift(prefix, s, level, j + 1);
    }
}

proof fn lemma_first_at_level_bounds<P>(s: Seq<Located<P>>, level: i32, i: int)
    requires
        0 <= i <= s.len(),
    ensures
        i <= first_at_level_from(s, level, i) <= s.len(),
        first_at_level_from(s, level, i) < s.len() ==> at_level(s[first_at_level_from(s, level, i)].0, level),
    decreases s.len() - i,
{
    if i < s.len() && !at_level(s[i].0, level) {
        lemma_first_at_level_bounds(s, level, i + 1);
    }
}

proof fn lemma_trace_from<P>(pres: Seq<Seq<Located<P>>>, loads: Seq<Tile<P>>, level: i32, i: int)
    requires
        is_search_trace(pres, loads, level),
        0 <= i < pres.len(),
    ensures
        ({
            let last = pres.last();
            let k = first_stop_from(last, level, 0);
            let s = search_order(pres[i], loads.skip(i), level);
            let m = first_at_level_from(s, level, 0);
            &&& k < last.len() && at_level(last[k].0, level) ==> m < s.len() && s[m] == last[k]
            &&& k == last.len() ==> m == s.len()
        }),
    decreases loads.len() - i,
{
    let pre = pres[i];
    let rest = loads.skip(i);
    let k = first_stop_from(pre, level, 0);
    lemma_first_stop_bounds(pre, level, 0);
    lemma_order_skips(pre, rest, level, k);
    assert forall|j: int| 0 <= j < pre.take(k).len() implies !at_level(#[trigger] pre.take(k)[j].0, level) by {
        assert(pre.take(k)[j] == pre[j]);
    }
    if i == loads.len() {
        assert(pres.last() == pre);
        assert(rest =~= Seq::<Tile<P>>::empty());
        if k < pre.len() {
            if at_level(pre[k].0, level) {
                let tail = search_order(pre.skip(k), rest, level);
                assert(pre.skip(k)[0] == pre[k]);
                assert(tail[0] == pre[k]);
                lemma_first_at_level_after(pre.take(k), tail, level, 0);
            }
        } else {
            assert(pre.skip(k) =~= Seq::<Located<P>>::empty());
            assert(search_order(pre, rest, level) =~= pre.take(k));
            assert(pre.take(k) =~= pre.take(k) + Seq::<Located<P>>::empty());
            lemma_first_at_level_after(pre.take(k), Seq::<Located<P>>::empty(), level, 0);
        }
    } else {
        assert(is_fetch_round(pres[i], loads[i], pres[i + 1], level));
        lemma_trace_from(pres, loads, level, i + 1);
        let t = pre[k].0;
        let b = pre[k].1;
        assert(pre.skip(k)[0] == pre[k]);
        assert(pre.skip(k).drop_first() =~= pre.skip(k + 1));
        assert(rest[0] == loads[i]);
        assert(rest.drop_first() =~= loads.skip(i + 1));
        let next_s = search_order(pres[i + 1], loads.skip(i + 1), level);
        assert(search_order(pre.skip(k), rest, level) == seq![pre[k]] + next_s);
        let prefix = pre.take(k) + seq![pre[k]];
        assert forall|j: int| 0 <= j < prefix.len() implies !at_level(#[trigger] prefix[j].0, level) by {
            if j < k {
                assert(prefix[j] == pre.take(k)[j]);
            }
        }
        assert(search_order(pre, rest, level) =~= prefix + next_s);
        lemma_first_at_level_after(prefix, next_s, level, 0);
        lemma_first_at_level_bounds(next_s, level, 0);
    }
}

/// Over a whole search, with the fetched tilesets handed back in the order
/// fetched, the tile found is the first tile at the level in the combined
/// pre-order `search_order`, and a search that finds nothing leaves no tile
/// at the level in that order. Each round of the trace is what `advance`
/// (ending in `LoadExternal`) and `resume` give (`lemma_fetch_round`).
pub proof fn lemma_search_finds_first_at_level<P>(pres: Seq<Seq<Located<P>>>, loads: Seq<Tile<P>>, level: i32)
    requires
        is_search_trace(pres, loads, level),
    ensures
        ({
            let last = pres.last();
            let k = first_stop_from(last, level, 0);
            let s = search_order(pres[0], loads, level);
            let m = first_at_level_from(s, level, 0);
            &&& k < last.len() && at_level(last[k].0, level) ==> m < s.len() && s[m] == last[k]
            &&& k == last.len() ==> m == s.len()
        }),
{
    lemma_trace_from(pres, loads, level, 0);
    assert(loads.skip(0) =~= loads);
}

/// A call of `advance` that asks for a tileset, followed by `resume` with
/// the fetched tileset, is a round of the search trace: from the tiles `pre`
/// searched by `advance` to the tiles searched after `resume`.
pub proof fn lemma_fetch_round<P>(
    pre: Seq<Located<P>>,
    level: i32,
    after_advance: Seq<Located<P>>,
    kids: Seq<Tile<P>>,
    kids_base: Seq<char>,
    fetched_uri: Seq<char>,
    load: Tile<P>,
    after_resume: Seq<Located<P>>,
)
    requires
        ({
            let k = first_stop_from(pre, level, 0);
            &&& k < pre.len()
            &&& !at_level(pre[k].0, level)
            &&& kids == pre[k].0.children@
            &&& kids_base == pre[k].1
            &&& fetched_uri == uri_resolve(pre[k].0.content_uri->0@, pre[k].1)
            &&& pre == pre.take(k) + preorder_tree(pre[k].0, pre[k].1) + after_advance
        }),
        after_resume == preorder_tree(load, fetched_uri) + preorder_forest(kids, kids_base) + after_advance,
    ensures
        is_fetch_round(pre, load, after_resume, level),
{
    let k = first_stop_from(pre, level, 0);
    lemma_first_stop_bounds(pre, level, 0);
    let t = pre[k].0;
    let b = pre[k].1;
    let f = preorder_forest(t.children@, b) + after_advance;
    let pk = pre.take(k);
    assert(preorder_tree(t, b) == seq![(t, b)] + preorder_forest(t.children@, b));
    let whole = pk + seq![(t, b)] + f;
    assert(pre =~= whole);
    assert(whole.len() == k + 1 + f.len());
    assert forall|j: int| 0 <= j < f.len() implies #[trigger] pre.skip(k + 1)[j] == f[j] by {
        assert(whole[k + 1 + j] == f[j]);
    }
    assert(pre.skip(k + 1) =~= f);
    assert(after_resume =~= preorder_tree(load, fetched_uri) + pre.skip(k + 1));
}

/// The content URI ends with `.json`, written out character by character.
pub open spec fn json_suffix_literal(u: Seq<char>) -> bool {
    &&& u.len() >= 5
    &&& u[u.len() - 5] == '.'
    &&& u[u.len() - 4] == 'j'
    &&& u[u.len() - 3] == 's'
    &&& u[u.len() - 2] == 'o'
    &&& u[u.len() - 1] == 'n'
}

/// The search stops at a tile exactly when its grid level is the level
/// sought, or its content URI ends with `.json`, whatever its grid level.
pub proof fn lemma_stops_search_exactly<P>(t: Tile<P>, level: i32)
    ensures
        stops_search(t, level) <==> (t.grid_level == Some(level) || (t.content_uri is Some
            && json_suffix_literal(t.content_uri->0@))),
        (t.content_uri is Some && json_suffix_literal(t.content_uri->0@)) ==> has_external_tileset(t),
{
    reveal_strlit(".json");
    if t.content_uri is Some {
        let u = t.content_uri->0@;
        if u.len() >= 5 {
            let tail = u.skip(u.len() - 5);
            assert(json_suffix_literal(u) <==> tail =~= ".json"@) by {
                assert(tail[0] == u[u.len() - 5]);
                assert(tail[1] == u[u.len() - 4]);
                assert(tail[2] == u[u.len() - 3]);
                assert(tail[3] == u[u.len() - 2]);
                assert(tail[4] == u[u.len() - 1]);
            }
        }
    }
}

/// A search does not pass over a tile whose content URI ends with `.json`:
/// it stops there or earlier, whatever that tile's grid level. So `advance`
/// returns that tile's external tileset to load (or finds a tile at the
/// level, or fails to form a URI) no later than at that tile.
pub proof fn lemma_search_stops_at_json_content<P>(pre: Seq<Located<P>>, level: i32, i: int)
    requires
        0 <= i < pre.len(),
        pre[i].0.content_uri is Some,
        json_suffix_literal(pre[i].0.content_uri->0@),
    ensures
        first_stop_from(pre, level, 0) <= i,
        first_stop_from(pre, level, 0) == i && !at_level(pre[i].0, level) ==> has_external_tileset(pre[i].0),
{
    lemma_first_stop_bounds(pre, level, 0);
    lemma_stops_search_exactly(pre[i].0, level);
}

} // verus!
