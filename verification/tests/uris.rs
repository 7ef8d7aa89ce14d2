use comingle::error::ResourceError;
use comingle::loader::{checked_reader_source, plan_read, reader_source, ReadPlan, ReaderSource, S3_BLOCK_SIZE};
use comingle::service::{
    base_globe_terrain_uri, content_payload_uri, content_root, content_toplevel_uri, layer_definition_uri,
    HttpStatus, LayerUriError,
};
use comingle::service::{cors_policy, CorsPolicy};
use comingle::uri::{resolve_against, AbsoluteUri};

fn uri(s: &str) -> AbsoluteUri {
    match AbsoluteUri::new(s) {
        Ok(u) => u,
        Err(_) => panic!("not an absolute URI: {}", s),
    }
}

#[test]
fn absolute_uri_components() {
    let u = uri("s3://bucket/key/part?x=1");
    assert_eq!(u.as_str(), "s3://bucket/key/part?x=1");
    assert_eq!(u.scheme_str(), "s3");
    assert_eq!(u.authority_str(), Some("bucket".to_string()));
    assert_eq!(u.path_str(), "/key/part");
    let v = uri("urn:uuid:10db315b");
    assert_eq!(v.authority_str(), None);
    assert_eq!(v.path_str(), "uuid:10db315b");
}

#[test]
fn absolute_uri_rejects_relative_and_fragment() {
    assert!(matches!(AbsoluteUri::new("relative/path"), Err(ResourceError::InvalidUri(_))));
    assert!(matches!(AbsoluteUri::new("s3://b/k#frag"), Err(ResourceError::InvalidUri(_))));
}

#[test]
fn normalization_check() {
    assert!(uri("s3://b/k").is_normalized());
    assert!(!uri("HTTP://example.COM/foo/./bar").is_normalized());
}

#[test]
fn resolve_relative_reference() {
    let base = uri("s3://b/x/y/t.json");
    assert_eq!(resolve_against("../a.json", &base).ok(), Some("s3://b/x/a.json".to_string()));
    assert_eq!(resolve_against("c/d.json", &base).ok(), Some("s3://b/x/y/c/d.json".to_string()));
    assert!(matches!(resolve_against("a b", &base), Err(ResourceError::InvalidUri(_))));
}

#[test]
fn plan_whole_and_archive_reads() {
    match plan_read(&uri("file:///data/a.json")) {
        Ok(ReadPlan::Whole { uri }) => assert_eq!(uri, "file:///data/a.json"),
        _ => panic!("expected a whole read"),
    }
    match plan_read(&uri("file:///data/a.3tz/4/1.json")) {
        Ok(ReadPlan::Archive { archive_uri, content_path }) => {
            assert_eq!(archive_uri, "file:///data/a.3tz");
            assert_eq!(content_path, "4/1.json");
        }
        _ => panic!("expected an archive read"),
    }
    match plan_read(&uri("s3://b/x.3tz")) {
        Ok(ReadPlan::Archive { archive_uri, content_path }) => {
            assert_eq!(archive_uri, "s3://b/x.3tz");
            assert_eq!(content_path, "tileset.json");
        }
        _ => panic!("expected an archive read"),
    }
}

#[test]
fn plan_refuses_unnormalized_uri() {
    match plan_read(&uri("file:///data/../a.json")) {
        Err(ResourceError::BadUri(m)) => assert_eq!(m, "uri is not normalized"),
        _ => panic!("expected BadUri"),
    }
}

#[test]
fn plan_refuses_relative_file_path() {
    match plan_read(&uri("file:data/a.json")) {
        Err(ResourceError::BadUri(m)) => assert_eq!(m, "File uri must be absolute"),
        _ => panic!("expected BadUri"),
    }
}

#[test]
fn reader_for_file_uri() {
    match reader_source("file:///tmp/x.3tz") {
        Ok(ReaderSource::File { path }) => assert_eq!(path, "/tmp/x.3tz"),
        _ => panic!("expected a file reader"),
    }
}

#[test]
fn reader_for_s3_uri() {
    let u = "s3://bucket//a/b.3tz";
    match reader_source(u) {
        Ok(ReaderSource::S3 { bucket, key, block_size, cache_id }) => {
            assert_eq!(bucket, "bucket");
            assert_eq!(key, "a/b.3tz");
            assert_eq!(block_size, S3_BLOCK_SIZE);
            assert_eq!(block_size, 1 << 20);
            assert_eq!(cache_id, md5::compute(u.as_bytes()).0);
        }
        _ => panic!("expected an s3 reader"),
    }
}

#[test]
fn reader_refuses_other_schemes_and_bad_text() {
    match reader_source("ftp://host/x") {
        Err(ResourceError::BadUri(m)) => assert_eq!(m, "Unsupported uri scheme"),
        _ => panic!("expected BadUri"),
    }
    assert!(matches!(reader_source("not a uri"), Err(ResourceError::InvalidUri(_))));
}

#[test]
fn checked_reader_declines_http_and_bucketless_s3() {
    assert!(checked_reader_source("http://host/x").is_none());
    assert!(checked_reader_source("https://host/x").is_none());
    assert!(checked_reader_source("s3:/no-bucket/x").is_none());
    assert!(matches!(checked_reader_source("file:///x"), Some(Ok(ReaderSource::File { .. }))));
    assert!(matches!(checked_reader_source("%%"), Some(Err(ResourceError::InvalidUri(_)))));
}

#[test]
fn content_root_of_3tz_is_its_tileset() {
    assert_eq!(content_root("s3://b/c/x.3tz".to_string()), "s3://b/c/x.3tz/tileset.json");
    assert_eq!(content_root("s3://b/c/tileset.json".to_string()), "s3://b/c/tileset.json");
}

#[test]
fn content_root_and_archive_split_agree() {
    let a = "s3://b/c/x.3tz";
    let root = content_root(a.to_string());
    assert_eq!(comingle::archive_path::split_archive_parts(&root), comingle::archive_path::split_archive_parts(a));
}

#[test]
fn content_toplevel_uri_statuses() {
    assert_eq!(content_toplevel_uri("s3://b/x.3tz".to_string()).ok().map(|u| u.as_str().to_string()), Some("s3://b/x.3tz/tileset.json".to_string()));
    assert_eq!(content_toplevel_uri("no uri".to_string()).err(), Some(HttpStatus::InternalServerError));
}

#[test]
fn content_payload_uri_resolves_rest() {
    let u = content_payload_uri("s3://b/c/x.3tz".to_string(), "4/1.glb").ok().unwrap();
    assert_eq!(u.as_str(), "s3://b/c/x.3tz/4/1.glb");
    let v = content_payload_uri("s3://b/c/tileset.json".to_string(), "../d/2.glb").ok().unwrap();
    assert_eq!(v.as_str(), "s3://b/d/2.glb");
}

#[test]
fn content_payload_uri_statuses() {
    assert_eq!(content_payload_uri("bad root".to_string(), "a").err(), Some(HttpStatus::InternalServerError));
    assert_eq!(content_payload_uri("s3://b/x.3tz".to_string(), "a b").err(), Some(HttpStatus::BadRequest));
    assert_eq!(content_payload_uri("s3://b/x.3tz".to_string(), "a#frag").err(), Some(HttpStatus::BadRequest));
}

#[test]
fn base_globe_terrain_uri_cases() {
    assert_eq!(base_globe_terrain_uri(None, "a.glb").err(), Some(HttpStatus::NotFound));
    let u = base_globe_terrain_uri(Some("s3://b/terrain"), "0/0/0.glb").ok().unwrap();
    assert_eq!(u.as_str(), "s3://b/terrain/0/0/0.glb");
    assert_eq!(base_globe_terrain_uri(Some("terrain"), "a b").err(), Some(HttpStatus::BadRequest));
}

#[test]
fn status_codes() {
    assert_eq!(HttpStatus::BadRequest.code(), 400);
    assert_eq!(HttpStatus::NotFound.code(), 404);
    assert_eq!(HttpStatus::InternalServerError.code(), 500);
}

#[test]
fn layer_definition_uri_cases() {
    let u = layer_definition_uri("s3://cfg/layers/", "abc").ok().unwrap();
    assert_eq!(u.as_str(), "s3://cfg/layers/abc.json");
    let v = layer_definition_uri("s3://cfg/layers", "abc").ok().unwrap();
    assert_eq!(v.as_str(), "s3://cfg/abc.json");
    match layer_definition_uri("s3://cfg/", "../x") {
        Err(LayerUriError::InvalidId(m)) => assert_eq!(m, "Invalid id, must be a valid identifier"),
        _ => panic!("expected InvalidId"),
    }
    assert!(matches!(layer_definition_uri("s3://cfg/", ""), Err(LayerUriError::InvalidId(_))));
    assert!(matches!(
        layer_definition_uri("not absolute", "abc"),
        Err(LayerUriError::InvalidUri(ResourceError::InvalidUri(_)))
    ));
}

#[test]
fn cors_policy_cases() {
    assert!(matches!(cors_policy(None), CorsPolicy::Disabled));
    assert!(matches!(cors_policy(Some("*")), CorsPolicy::AnyOrigin));
    match cors_policy(Some("https://viewer.example")) {
        CorsPolicy::Origin(o) => assert_eq!(o, "https://viewer.example"),
        _ => panic!("expected one origin"),
    }
}
