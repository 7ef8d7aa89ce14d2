use comingle::error::ResourceError;
use comingle::tiles::{content_root_tile, rewrite_tile_uris_relative_to_root, ContentRootError, SearchStep, Tile, TileSearch};
use comingle::uri::AbsoluteUri;

fn uri(s: &str) -> AbsoluteUri {
    match AbsoluteUri::new(s) {
        Ok(u) => u,
        Err(_) => panic!("bad uri"),
    }
}

fn tile(name: u32, uri: Option<&str>, level: Option<i32>, children: Vec<Tile<u32>>) -> Tile<u32> {
    Tile { content_uri: uri.map(|s| s.to_string()), grid_level: level, children, rest: name }
}

fn found_name(step: SearchStep<u32>) -> Option<(u32, String)> {
    match step {
        SearchStep::Found(t, b) => Some((t.rest, b.as_str().to_string())),
        _ => None,
    }
}

#[test]
fn rewrite_makes_uris_relative_to_root() {
    let mut t = tile(1, Some("a.glb"), Some(3), vec![tile(2, Some("../8/1.json"), None, vec![]), tile(3, None, None, vec![])]);
    let base = uri("s3://b/x/4/4/t.json");
    let root = uri("s3://b/x/tileset.json");
    assert!(rewrite_tile_uris_relative_to_root(&mut t, &base, &root).is_ok());
    assert_eq!(t.content_uri.as_deref(), Some("4/4/a.glb"));
    assert_eq!(t.children[0].content_uri.as_deref(), Some("4/8/1.json"));
    assert_eq!(t.children[1].content_uri, None);
    assert_eq!(t.grid_level, Some(3));
    assert_eq!(t.children.len(), 2);
    assert_eq!(t.children[1].rest, 3);
}

#[test]
fn rewrite_fails_on_invalid_reference() {
    let mut t = tile(1, None, None, vec![tile(2, Some("a b"), None, vec![])]);
    let base = uri("s3://b/x/t.json");
    assert!(matches!(rewrite_tile_uris_relative_to_root(&mut t, &base, &base), Err(ResourceError::InvalidUri(_))));
}

#[test]
fn rewrite_stops_at_first_invalid_reference() {
    let mut t = tile(1, Some("a.glb"), None, vec![
        tile(2, Some("c0.glb"), None, vec![]),
        tile(3, Some("a b"), None, vec![tile(4, Some("d.glb"), None, vec![])]),
        tile(5, Some("c2.glb"), None, vec![]),
    ]);
    let base = uri("s3://b/x/4/t.json");
    let root = uri("s3://b/x/tileset.json");
    assert!(matches!(rewrite_tile_uris_relative_to_root(&mut t, &base, &root), Err(ResourceError::InvalidUri(_))));
    assert_eq!(t.content_uri.as_deref(), Some("4/a.glb"));
    assert_eq!(t.children[0].content_uri.as_deref(), Some("4/c0.glb"));
    assert_eq!(t.children[1].content_uri.as_deref(), Some("a b"));
    assert_eq!(t.children[1].children[0].content_uri.as_deref(), Some("d.glb"));
    assert_eq!(t.children[2].content_uri.as_deref(), Some("c2.glb"));
    assert_eq!(t.children.len(), 3);
}

#[test]
fn search_finds_first_tile_at_level_in_preorder() {
    let tree = tile(0, None, Some(1), vec![
        tile(1, None, Some(2), vec![tile(2, None, Some(5), vec![])]),
        tile(3, None, Some(5), vec![]),
    ]);
    let mut s = TileSearch::new(tree, uri("s3://b/t.json"), 5);
    assert_eq!(found_name(s.advance()), Some((2, "s3://b/t.json".to_string())));
}

#[test]
fn search_reports_not_found() {
    let tree = tile(0, None, Some(1), vec![tile(1, None, None, vec![])]);
    let mut s = TileSearch::new(tree, uri("s3://b/t.json"), 7);
    assert!(matches!(s.advance(), SearchStep::NotFound));
    assert_eq!(s.stack.len(), 0);
}

#[test]
fn search_enters_external_tileset_before_children() {
    let tree = tile(0, Some("sub/ext.json"), None, vec![tile(1, None, Some(4), vec![])]);
    let mut s = TileSearch::new(tree, uri("s3://b/x/t.json"), 4);
    match s.advance() {
        SearchStep::LoadExternal(u) => assert_eq!(u.as_str(), "s3://b/x/sub/ext.json"),
        _ => panic!("expected a load"),
    }
    s.resume(tile(10, None, None, vec![tile(11, None, Some(4), vec![])]));
    assert_eq!(found_name(s.advance()), Some((11, "s3://b/x/sub/ext.json".to_string())));
}

#[test]
fn search_continues_with_children_after_external() {
    let tree = tile(0, Some("ext.json"), None, vec![tile(1, None, Some(4), vec![])]);
    let mut s = TileSearch::new(tree, uri("s3://b/x/t.json"), 4);
    assert!(matches!(s.advance(), SearchStep::LoadExternal(_)));
    s.resume(tile(10, None, Some(2), vec![]));
    assert_eq!(found_name(s.advance()), Some((1, "s3://b/x/t.json".to_string())));
}

#[test]
fn search_level_wins_over_external_content() {
    let tree = tile(0, Some("ext.json"), Some(4), vec![]);
    let mut s = TileSearch::new(tree, uri("s3://b/x/t.json"), 4);
    assert_eq!(found_name(s.advance()), Some((0, "s3://b/x/t.json".to_string())));
}

#[test]
fn search_fails_on_bad_external_reference() {
    let tree = tile(0, Some("a b.json"), None, vec![]);
    let mut s = TileSearch::new(tree, uri("s3://b/x/t.json"), 4);
    assert!(matches!(s.advance(), SearchStep::Failed(ResourceError::InvalidUri(_))));
}

#[test]
fn content_root_tile_outcomes() {
    let root = uri("s3://b/x/tileset.json");
    match content_root_tile::<u32>(None, &root, -3) {
        Err(ContentRootError::NoTileAtLevel(m)) => assert_eq!(m, "No tile found at level -3"),
        _ => panic!("expected NoTileAtLevel"),
    }
    match content_root_tile::<u32>(None, &root, 12) {
        Err(ContentRootError::NoTileAtLevel(m)) => assert_eq!(m, "No tile found at level 12"),
        _ => panic!("expected NoTileAtLevel"),
    }
    let t = tile(5, Some("c.glb"), Some(2), vec![]);
    let r = content_root_tile(Some((t, uri("s3://b/x/9/t.json"))), &root, 2).ok().unwrap();
    assert_eq!(r.content_uri.as_deref(), Some("9/c.glb"));
    let bad = tile(5, Some("a b"), Some(2), vec![]);
    assert!(matches!(
        content_root_tile(Some((bad, uri("s3://b/x/9/t.json"))), &root, 2),
        Err(ContentRootError::InvalidUri(ResourceError::InvalidUri(_)))
    ));
}
