use comingle::archive_path::split_archive_parts;
use comingle::identifier::is_valid_identifier;
use comingle::relative_path;
use comingle::uri::AbsoluteUri;

fn uri_relative_to_base_dir(resolved: &str, base: &str) -> String {
    match AbsoluteUri::new(base) {
        Ok(b) => relative_path::uri_relative_to_base_dir(resolved, &b),
        Err(_) => panic!("bad base"),
    }
}

fn split(p: &str) -> Option<(String, String)> {
    split_archive_parts(p)
}

fn pair(a: &str, b: &str) -> Option<(String, String)> {
    Some((a.to_string(), b.to_string()))
}

#[test]
fn identifier_accepts_letters_digits_dash_underscore() {
    assert!(is_valid_identifier("abc-DEF_09"));
    assert!(is_valid_identifier("x"));
}

#[test]
fn identifier_rejects_empty_and_other_characters() {
    assert!(!is_valid_identifier(""));
    assert!(!is_valid_identifier("a.b"));
    assert!(!is_valid_identifier("../etc"));
    assert!(!is_valid_identifier("caf\u{e9}"));
    assert!(!is_valid_identifier("a b"));
}

#[test]
fn split_entry_inside_3tz() {
    assert_eq!(split("s3://b/x/data.3tz/4/4.json"), pair("s3://b/x/data.3tz", "4/4.json"));
}

#[test]
fn split_bare_3tz_defaults_to_tileset() {
    assert_eq!(split("file:///a/b.3tz"), pair("file:///a/b.3tz", "tileset.json"));
    assert_eq!(split("file:///a/b.3tz/"), pair("file:///a/b.3tz", "tileset.json"));
}

#[test]
fn split_bare_zip_names_nothing() {
    assert_eq!(split("file:///a/b.zip"), None);
    assert_eq!(split("file:///a/b.zip/"), None);
}

#[test]
fn split_zip_with_backslash_separator() {
    assert_eq!(split("c:\\data\\b.zip\\inner\\t.b3dm"), pair("c:\\data\\b.zip", "inner\\t.b3dm"));
}

#[test]
fn split_uses_last_archive_extension() {
    assert_eq!(split("a.3tz/b.zip/c"), pair("a.3tz/b.zip", "c"));
}

#[test]
fn split_extension_not_followed_by_separator() {
    assert_eq!(split("x.3tzabc"), pair("x.3tz", "abc"));
}

#[test]
fn split_without_archive() {
    assert_eq!(split("s3://b/x/tileset.json"), None);
    assert_eq!(split(".3tz"), None);
    assert_eq!(split(""), None);
    assert_eq!(split("a.ZIP/b"), None);
}

#[test]
fn split_matches_on_last_line_only() {
    assert_eq!(split("one.zip/x\nfoo.zip/bar"), pair("foo.zip", "bar"));
    assert_eq!(split("one.zip/x\nno archive"), None);
}

#[test]
fn split_parts_reassemble_to_the_path() {
    let p = "s3://bucket/a/b.zip\\c/d.glb";
    let (a, i) = split(p).unwrap();
    assert_eq!(format!("{}\\{}", a, i), p);
}

#[test]
fn relative_to_base_dir_drops_shared_directory() {
    assert_eq!(uri_relative_to_base_dir("s3://b/x/8/1.json", "s3://b/x/tileset.json"), "8/1.json");
}

#[test]
fn relative_to_base_dir_keeps_from_divergence() {
    assert_eq!(uri_relative_to_base_dir("s3://b/y/z.json", "s3://b/x/t.json"), "y/z.json");
}

#[test]
fn relative_to_base_dir_of_the_directory_itself() {
    assert_eq!(uri_relative_to_base_dir("s3://b/x/", "s3://b/x/t.json"), "");
}

#[test]
fn relative_to_base_without_slash() {
    assert_eq!(uri_relative_to_base_dir("a/b", "urn:x"), "a/b");
}

#[test]
fn relative_to_base_dir_law_on_concrete_values() {
    let base = "file:///data/root/tileset.json";
    let r = "4/12/34.json";
    let resolved = format!("file:///data/root/{}", r);
    assert_eq!(uri_relative_to_base_dir(&resolved, base), r);
}
